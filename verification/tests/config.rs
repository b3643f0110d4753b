use genuki::config::{
    parse_initrd, Arguments, Config, Flavor, InlineOrPath, Kernel, OneOrMany,
};
use genuki::error::{AppError, IoCause};
use genuki::probe::{FileKind, Snapshot};
use genuki::source::Source;

fn io(path: &str, source: IoCause) -> AppError {
    AppError::IoError { path: path.to_string(), source }
}

fn files(paths: &[&str]) -> Snapshot {
    let mut fs = Snapshot::new();
    for p in paths {
        fs.record(p, FileKind::File, vec![0x42, 0x4D]);
    }
    fs
}

fn one(flavor: Flavor) -> Config {
    Config::new("/etc/genuki").with_kernel("linux", Kernel::new().with_flavor("default", flavor))
}

fn with_kernel_settings(flavor: Flavor) -> Config {
    let kernel = Kernel::new().with_defaults(
        Some(InlineOrPath::Inline { inline: "quiet".to_string() }),
        Some("/boot/k-linux".to_string()),
        Some("/k.bmp".to_string()),
        Some("/k.stub".to_string()),
    );
    Config::new("/etc/genuki").with_kernel("linux", kernel.with_flavor("default", flavor))
}

#[test]
fn targets_come_in_document_order() {
    let config = Config::new("/etc/genuki")
        .with_kernel(
            "linux",
            Kernel::new()
                .with_flavor("default", Flavor::new("a"))
                .with_flavor("fallback", Flavor::new("b")),
        )
        .with_kernel("linux-lts", Kernel::new().with_flavor("default", Flavor::new("c")))
        .with_kernel("empty", Kernel::new());
    let expected: Vec<(String, String)> = vec![
        ("linux".to_string(), "default".to_string()),
        ("linux".to_string(), "fallback".to_string()),
        ("linux-lts".to_string(), "default".to_string()),
    ];
    assert_eq!(config.targets(), expected);
    assert!(config.has_target("linux", "fallback"));
    assert!(config.has_target("linux-lts", "default"));
    assert!(!config.has_target("linux-lts", "fallback"));
    assert!(!config.has_target("empty", "default"));
    assert!(!config.has_target("other", "default"));
    assert_eq!(config.location(), "/etc/genuki");
    assert!(!config.is_direct());
}

#[test]
fn filing_under_a_used_name_replaces() {
    let refiled = || {
        Kernel::new()
            .with_flavor("default", Flavor::new("a"))
            .with_flavor("fallback", Flavor::new("b"))
            .with_flavor("default", Flavor::new("c"))
    };
    let kernel = refiled();
    assert_eq!(kernel.flavor_names(), vec!["default".to_string(), "fallback".to_string()]);
    assert_eq!(kernel.flavor("default"), Some(&Flavor::new("c")));
    assert_eq!(kernel.flavor("none"), None);
    let config = Config::new("/")
        .with_kernel("linux", Kernel::new())
        .with_kernel("lts", Kernel::new())
        .with_kernel("linux", refiled());
    assert_eq!(config.kernel("linux"), Some(&kernel));
    assert_eq!(config.targets().len(), 2);
    assert_eq!(config.targets()[0], ("linux".to_string(), "default".to_string()));
}

#[test]
fn flavor_setting_wins_over_kernel_setting() {
    let mut flavor = Flavor::new("out.efi");
    flavor.cmdline = Some(InlineOrPath::Path("/f.cmdline".to_string()));
    flavor.linux = Some("/boot/f-linux".to_string());
    flavor.splash_image = Some("/f.bmp".to_string());
    flavor.efistub = Some("/f.stub".to_string());
    let config = with_kernel_settings(flavor);
    let fs = files(&[
        "/f.cmdline", "/boot/f-linux", "/f.bmp", "/f.stub", "/boot/k-linux", "/k.bmp", "/k.stub",
        "/boot/vmlinuz-linux", "/usr/lib/systemd/boot/efi/linuxx64.efi.stub",
    ]);
    assert_eq!(
        config.cmdline_setting("linux", "default"),
        Some(&InlineOrPath::Path("/f.cmdline".to_string()))
    );
    assert_eq!(config.cmdline_path("linux", "default", &fs), Ok(Some("/f.cmdline".to_string())));
    assert_eq!(config.linux_path("linux", "default", &fs), Ok("/boot/f-linux".to_string()));
    assert_eq!(config.splash_image_path("linux", "default", &fs), Ok(Some("/f.bmp".to_string())));
    assert_eq!(config.efistub_path("linux", "default", &fs), Ok("/f.stub".to_string()));
}

#[test]
fn kernel_setting_wins_over_default() {
    let config = with_kernel_settings(Flavor::new("out.efi"));
    let fs = files(&[
        "/boot/k-linux", "/k.bmp", "/k.stub", "/boot/vmlinuz-linux",
        "/usr/lib/systemd/boot/efi/linuxx64.efi.stub",
    ]);
    assert_eq!(
        config.cmdline_source("linux", "default", &fs),
        Ok(Some(Source::Text {
            scratch: "linux-default-cmdline".to_string(),
            text: "quiet".to_string()
        }))
    );
    assert_eq!(
        config.cmdline_path("linux", "default", &fs),
        Ok(Some("/tmp/linux-default-cmdline".to_string()))
    );
    assert_eq!(config.linux_path("linux", "default", &fs), Ok("/boot/k-linux".to_string()));
    assert_eq!(config.splash_image_path("linux", "default", &fs), Ok(Some("/k.bmp".to_string())));
    assert_eq!(config.efistub_path("linux", "default", &fs), Ok("/k.stub".to_string()));
}

#[test]
fn defaults_where_nothing_is_set() {
    let config = one(Flavor::new("out.efi"));
    let fs = files(&[
        "/boot/vmlinuz-linux", "/usr/lib/systemd/boot/efi/linuxx64.efi.stub", "/etc/os-release",
    ]);
    assert_eq!(config.cmdline_setting("linux", "default"), None);
    assert_eq!(config.cmdline_path("linux", "default", &fs), Ok(None));
    assert_eq!(config.cmdline_source("linux", "default", &fs), Ok(None));
    assert_eq!(config.splash_image_path("linux", "default", &fs), Ok(None));
    assert_eq!(config.linux_path("linux", "default", &fs), Ok("/boot/vmlinuz-linux".to_string()));
    assert_eq!(
        config.efistub_path("linux", "default", &fs),
        Ok("/usr/lib/systemd/boot/efi/linuxx64.efi.stub".to_string())
    );
    assert_eq!(config.os_release_path("linux", "default", &fs), Ok("/etc/os-release".to_string()));
}

#[test]
fn missing_defaults_are_not_found() {
    let config = one(Flavor::new("out.efi"));
    let fs = Snapshot::new();
    assert_eq!(
        config.linux_path("linux", "default", &fs),
        Err(io("/boot/vmlinuz-linux", IoCause::NotFound))
    );
    assert_eq!(
        config.efistub_path("linux", "default", &fs),
        Err(io("/usr/lib/systemd/boot/efi/linuxx64.efi.stub", IoCause::NotFound))
    );
    assert_eq!(
        config.os_release_path("linux", "default", &fs),
        Err(io("/usr/lib/os-release", IoCause::NotFound))
    );
}

#[test]
fn relative_settings_start_at_the_location() {
    let mut flavor = Flavor::new("out.efi");
    flavor.linux = Some("vmlinuz".to_string());
    flavor.cmdline = Some(InlineOrPath::Path("../cmdline".to_string()));
    let config = one(flavor);
    let mut fs = files(&["/etc/genuki/vmlinuz"]);
    fs.record("/etc/cmdline", FileKind::Directory, vec![]);
    assert_eq!(config.linux_path("linux", "default", &fs), Ok("/etc/genuki/vmlinuz".to_string()));
    assert_eq!(
        config.cmdline_path("linux", "default", &fs),
        Err(io("/etc/cmdline", IoCause::InvalidInput))
    );
}

#[test]
fn os_release_falls_back_to_the_second_choice() {
    let mut flavor = Flavor::new("out.efi");
    flavor.os_release = Some(InlineOrPath::Path("os-release".to_string()));
    let config = one(flavor);
    let both = files(&["/etc/genuki/os-release", "/usr/lib/os-release"]);
    assert_eq!(
        config.os_release_path("linux", "default", &both),
        Ok("/etc/genuki/os-release".to_string())
    );
    let second = files(&["/usr/lib/os-release", "/etc/os-release"]);
    assert_eq!(
        config.os_release_path("linux", "default", &second),
        Ok("/usr/lib/os-release".to_string())
    );
    let mut neither = Snapshot::new();
    neither.record("/usr/lib/os-release", FileKind::Directory, vec![]);
    assert_eq!(
        config.os_release_path("linux", "default", &neither),
        Err(io("/usr/lib/os-release", IoCause::InvalidInput))
    );
}

#[test]
fn title_makes_the_os_release_a_rewrite() {
    let mut flavor = Flavor::new("out.efi");
    flavor.title = Some("My Box".to_string());
    let config = one(flavor);
    let fs = files(&["/etc/os-release"]);
    let source = config.os_release_source("linux", "default", &fs).unwrap();
    assert_eq!(
        source,
        Source::Rewrite {
            scratch: "linux-default-os-release".to_string(),
            base: "/etc/os-release".to_string(),
            title: "My Box".to_string(),
            flavor: "default".to_string(),
        }
    );
    assert!(source.is_synthesized());
    assert_eq!(source.path(), "/tmp/linux-default-os-release");
    assert_eq!(
        config.os_release_path("linux", "default", &fs),
        Ok("/tmp/linux-default-os-release".to_string())
    );
    assert_eq!(
        config.os_release_path("linux", "default", &Snapshot::new()),
        Err(io("/usr/lib/os-release", IoCause::NotFound))
    );
}

#[test]
fn inline_os_release_is_written_out() {
    let mut flavor = Flavor::new("out.efi");
    flavor.os_release = Some(InlineOrPath::Inline { inline: "ID=arch\nNAME=x".to_string() });
    let plain = one(flavor.clone());
    let fs = Snapshot::new();
    assert_eq!(
        plain.os_release_source("linux", "default", &fs),
        Ok(Source::Text {
            scratch: "linux-default-os-release".to_string(),
            text: "ID=arch\nNAME=x".to_string()
        })
    );
    flavor.title = Some("T".to_string());
    let titled = one(flavor);
    assert_eq!(
        titled.os_release_source("linux", "default", &fs),
        Ok(Source::Text {
            scratch: "linux-default-os-release".to_string(),
            text: "ID=arch-default\nNAME=x\n".to_string()
        })
    );
}

#[test]
fn splash_image_has_to_be_a_bmp() {
    let mut flavor = Flavor::new("out.efi");
    flavor.splash_image = Some("splash.bmp".to_string());
    let config = one(flavor);
    let mut fs = Snapshot::new();
    fs.record("/etc/genuki/splash.bmp", FileKind::File, vec![0x89, 0x50]);
    assert_eq!(config.splash_image_path("linux", "default", &fs), Err(AppError::InvalidSplash));
    fs.record("/etc/genuki/splash.bmp", FileKind::File, vec![0x42, 0x4D]);
    assert_eq!(
        config.splash_image_path("linux", "default", &fs),
        Ok(Some("/etc/genuki/splash.bmp".to_string()))
    );
}

#[test]
fn single_initrd_is_checked_and_used() {
    let mut flavor = Flavor::new("out.efi");
    flavor.initrd = Some(OneOrMany::One("initrd.img".to_string()));
    let config = one(flavor);
    let fs = files(&["/etc/genuki/initrd.img", "/boot/amd-ucode.img", "/boot/intel-ucode.img"]);
    assert_eq!(
        config.initrd_source("linux", "default", &fs),
        Ok(Source::File("/etc/genuki/initrd.img".to_string()))
    );
    assert_eq!(
        config.initrd_path("linux", "default", &Snapshot::new()),
        Err(io("/etc/genuki/initrd.img", IoCause::NotFound))
    );
}

#[test]
fn listed_initrds_are_merged_in_order() {
    let mut flavor = Flavor::new("out.efi");
    flavor.initrd = Some(OneOrMany::Many(vec!["b.img".to_string(), "/a.img".to_string()]));
    let config = one(flavor);
    let fs = Snapshot::new();
    assert_eq!(
        config.initrd_source("linux", "default", &fs),
        Ok(Source::Concat {
            scratch: "linux-default-initrd.img".to_string(),
            parts: vec!["b.img".to_string(), "/a.img".to_string()],
        })
    );
    assert_eq!(
        config.initrd_path("linux", "default", &fs),
        Ok("/tmp/linux-default-initrd.img".to_string())
    );
}

#[test]
fn unset_initrd_is_detected() {
    let config = Config::new("/etc/genuki").with_kernel(
        "linux",
        Kernel::new()
            .with_flavor("default", Flavor::new("a"))
            .with_flavor("fallback", Flavor::new("b")),
    );
    let plain = files(&["/boot/initramfs-linux.img", "/boot/initramfs-linux-fallback.img"]);
    assert_eq!(
        config.initrd_source("linux", "default", &plain),
        Ok(Source::File("/boot/initramfs-linux.img".to_string()))
    );
    assert_eq!(
        config.initrd_path("linux", "fallback", &plain),
        Ok("/boot/initramfs-linux-fallback.img".to_string())
    );
    let amd = files(&["/boot/amd-ucode.img"]);
    assert_eq!(
        config.initrd_source("linux", "fallback", &amd),
        Ok(Source::Concat {
            scratch: "linux-fallback-initrd.img".to_string(),
            parts: vec![
                "/boot/amd-ucode.img".to_string(),
                "/boot/initramfs-linux-fallback.img".to_string()
            ],
        })
    );
    let both = files(&["/boot/amd-ucode.img", "/boot/intel-ucode.img"]);
    assert_eq!(config.initrd_path("linux", "default", &both), Err(AppError::MultipleMicrocode));
    assert_eq!(
        config.initrd_path("linux", "default", &Snapshot::new()),
        Err(io("/boot/initramfs-linux.img", IoCause::NotFound))
    );
}

#[test]
fn output_is_taken_as_it_is() {
    let config = one(Flavor::new("../out/linux.efi"));
    assert_eq!(config.output_path("linux", "default"), Ok("../out/linux.efi".to_string()));
}

fn arguments() -> Arguments {
    Arguments {
        os_release: None,
        cmdline: Some("cmdline".to_string()),
        splash_image: None,
        linux: Some("/boot/vmlinuz".to_string()),
        initrd: Some("/boot/ucode.img,/boot/initrd.img".to_string()),
        efistub: None,
        output: "out.efi".to_string(),
    }
}

#[test]
fn arguments_make_one_unknown_target() {
    let config = Config::from_arguments("/work", &arguments());
    assert!(config.is_direct());
    assert_eq!(config.targets(), vec![("unknown".to_string(), "unknown".to_string())]);
    let fs = files(&[
        "/work/cmdline", "/boot/vmlinuz", "/etc/os-release",
        "/usr/lib/systemd/boot/efi/linuxx64.efi.stub",
    ]);
    assert_eq!(config.cmdline_path("unknown", "unknown", &fs), Ok(Some("/work/cmdline".to_string())));
    assert_eq!(config.linux_path("unknown", "unknown", &fs), Ok("/boot/vmlinuz".to_string()));
    assert_eq!(
        config.initrd_source("unknown", "unknown", &fs),
        Ok(Source::Concat {
            scratch: "unknown-unknown-initrd.img".to_string(),
            parts: vec!["/boot/ucode.img".to_string(), "/boot/initrd.img".to_string()],
        })
    );
    assert_eq!(config.os_release_path("unknown", "unknown", &fs), Ok("/etc/os-release".to_string()));
    assert_eq!(config.output_path("unknown", "unknown"), Ok("out.efi".to_string()));
    assert_eq!(config.splash_image_path("unknown", "unknown", &fs), Ok(None));
}

#[test]
fn arguments_without_linux_or_initrd_are_not_provided() {
    let mut args = arguments();
    args.linux = None;
    args.initrd = None;
    let config = Config::from_arguments("/work", &args);
    let fs = files(&["/boot/vmlinuz-unknown", "/boot/initramfs-unknown.img"]);
    assert_eq!(
        config.linux_path("unknown", "unknown", &fs),
        Err(AppError::NotProvided("linux"))
    );
    assert_eq!(
        config.initrd_path("unknown", "unknown", &fs),
        Err(AppError::NotProvided("initrd"))
    );
}

#[test]
fn arguments_do_not_fall_back_to_the_second_os_release() {
    let config = Config::from_arguments("/work", &arguments());
    let fs = files(&["/usr/lib/os-release"]);
    assert_eq!(
        config.os_release_path("unknown", "unknown", &fs),
        Err(io("/etc/os-release", IoCause::NotFound))
    );
}

#[test]
fn initrd_lists_are_split_at_commas() {
    assert_eq!(parse_initrd("/a.img"), OneOrMany::One("/a.img".to_string()));
    assert_eq!(
        parse_initrd("/a.img,b.img"),
        OneOrMany::Many(vec!["/a.img".to_string(), "b.img".to_string()])
    );
    assert_eq!(parse_initrd(""), OneOrMany::One(String::new()));
    assert_eq!(
        parse_initrd("a,,b"),
        OneOrMany::Many(vec!["a".to_string(), String::new(), "b".to_string()])
    );
}

#[test]
fn kernel_settings_are_replaced_as_a_whole() {
    let first = Kernel::new()
        .with_flavor("default", Flavor::new("out.efi"))
        .with_defaults(None, Some("/boot/a".to_string()), None, Some("/a.stub".to_string()));
    let config = Config::new("/").with_kernel("linux", first);
    assert_eq!(config.linux_setting("linux", "default"), Some(&"/boot/a".to_string()));
    assert_eq!(config.efistub_setting("linux", "default"), "/a.stub");
    assert_eq!(config.splash_image_setting("linux", "default"), None);
    let second = Kernel::new()
        .with_defaults(None, Some("/boot/a".to_string()), None, Some("/a.stub".to_string()))
        .with_defaults(None, None, Some("/s.bmp".to_string()), None)
        .with_flavor("default", Flavor::new("out.efi"));
    let config = Config::new("/").with_kernel("linux", second);
    assert_eq!(config.linux_setting("linux", "default"), None);
    assert_eq!(
        config.efistub_setting("linux", "default"),
        "/usr/lib/systemd/boot/efi/linuxx64.efi.stub"
    );
    assert_eq!(config.splash_image_setting("linux", "default"), Some(&"/s.bmp".to_string()));
    assert_eq!(config.targets(), vec![("linux".to_string(), "default".to_string())]);
}

#[test]
fn no_target_is_listed_twice() {
    let config = Config::new("/")
        .with_kernel(
            "a",
            Kernel::new()
                .with_flavor("x", Flavor::new("1"))
                .with_flavor("y", Flavor::new("2"))
                .with_flavor("x", Flavor::new("3")),
        )
        .with_kernel("b", Kernel::new().with_flavor("x", Flavor::new("4")))
        .with_kernel("a", Kernel::new().with_flavor("x", Flavor::new("5")));
    let targets = config.targets();
    assert_eq!(
        targets,
        vec![("a".to_string(), "x".to_string()), ("b".to_string(), "x".to_string())]
    );
    for (i, t) in targets.iter().enumerate() {
        assert!(!targets[i + 1..].contains(t));
    }
    assert_eq!(config.output_path("a", "x"), Ok("5".to_string()));
}
