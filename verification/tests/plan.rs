use genuki::app::App;
use genuki::config::{Config, Flavor, InlineOrPath, Kernel};
use genuki::error::{AppError, IoCause};
use genuki::plan::{Resolved, SectionKind};
use genuki::probe::{FileKind, Snapshot};
use genuki::select::Selection;
use genuki::source::Source;

fn strings(items: &[&str]) -> Vec<String> {
    items.iter().map(|s| s.to_string()).collect()
}

fn files(paths: &[&str]) -> Snapshot {
    let mut fs = Snapshot::new();
    for p in paths {
        fs.record(p, FileKind::File, vec![0x42, 0x4D]);
    }
    fs
}

fn host() -> Snapshot {
    files(&[
        "/etc/os-release",
        "/boot/vmlinuz-linux",
        "/boot/initramfs-linux.img",
        "/boot/initramfs-linux-fallback.img",
        "/usr/lib/systemd/boot/efi/linuxx64.efi.stub",
        "/etc/genuki/splash.bmp",
    ])
}

fn full() -> Resolved {
    Resolved {
        os_release: Source::File("/etc/os-release".to_string()),
        cmdline: Some(Source::Text { scratch: "l-d-cmdline".to_string(), text: "quiet".to_string() }),
        splash: Some("/s.bmp".to_string()),
        linux: "/boot/vmlinuz-linux".to_string(),
        initrd: Source::Concat { scratch: "l-d-initrd.img".to_string(), parts: Vec::new() },
        efistub: "/stub".to_string(),
        output: "/boot/efi/EFI/Linux/l.efi".to_string(),
    }
}

#[test]
fn load_addresses_are_fixed() {
    assert_eq!(SectionKind::OsRelease.address(), 0x20000);
    assert_eq!(SectionKind::Cmdline.address(), 0x30000);
    assert_eq!(SectionKind::Splash.address(), 0x40000);
    assert_eq!(SectionKind::Linux.address(), 0x2000000);
    assert_eq!(SectionKind::Initrd.address(), 0x3000000);
    assert_eq!(SectionKind::OsRelease.name(), ".osrel");
    assert_eq!(SectionKind::Cmdline.name(), ".cmdline");
    assert_eq!(SectionKind::Splash.name(), ".splash");
    assert_eq!(SectionKind::Linux.name(), ".linux");
    assert_eq!(SectionKind::Initrd.name(), ".initrd");
}

#[test]
fn arguments_list_every_section_in_order() {
    assert_eq!(
        full().arguments(),
        strings(&[
            "--add-section",
            ".osrel=\"/etc/os-release\"",
            "--change-section-vma",
            ".osrel=0x20000",
            "--add-section",
            ".cmdline=\"/tmp/l-d-cmdline\"",
            "--change-section-vma",
            ".cmdline=0x30000",
            "--add-section",
            ".splash=\"/s.bmp\"",
            "--change-section-vma",
            ".splash=0x40000",
            "--add-section",
            ".linux=\"/boot/vmlinuz-linux\"",
            "--change-section-vma",
            ".linux=0x2000000",
            "--add-section",
            ".initrd=\"/tmp/l-d-initrd.img\"",
            "--change-section-vma",
            ".initrd=0x3000000",
            "\"/stub\"",
            "\"/boot/efi/EFI/Linux/l.efi\"",
        ])
    );
}

#[test]
fn absent_sections_are_left_out() {
    let mut resolved = full();
    resolved.cmdline = None;
    resolved.splash = None;
    assert_eq!(
        resolved.plan(),
        vec![
            (SectionKind::OsRelease, "/etc/os-release".to_string()),
            (SectionKind::Linux, "/boot/vmlinuz-linux".to_string()),
            (SectionKind::Initrd, "/tmp/l-d-initrd.img".to_string()),
        ]
    );
    assert_eq!(resolved.arguments().len(), 14);
    assert_eq!(full().arguments().len(), 22);
    assert_eq!(full().plan().len(), 5);
    assert_eq!(full().plan()[1], (SectionKind::Cmdline, "/tmp/l-d-cmdline".to_string()));
    assert_eq!(full().plan()[2], (SectionKind::Splash, "/s.bmp".to_string()));
}

#[test]
fn directory_is_the_parent_of_the_output() {
    assert_eq!(full().directory(), Some("/boot/efi/EFI/Linux".to_string()));
    let mut resolved = full();
    resolved.output = "l.efi".to_string();
    assert_eq!(resolved.directory(), Some(String::new()));
    resolved.output = "/".to_string();
    assert_eq!(resolved.directory(), None);
}

fn config() -> Config {
    let mut first = Flavor::new("/out/default.efi");
    first.title = Some("My Box".to_string());
    first.splash_image = Some("splash.bmp".to_string());
    let kernel = Kernel::new().with_defaults(
        Some(InlineOrPath::Inline { inline: "quiet rw".to_string() }),
        None,
        None,
        None,
    );
    Config::new("/etc/genuki").with_kernel(
        "linux",
        kernel.with_flavor("default", first).with_flavor("fallback", Flavor::new("/out/fb.efi")),
    )
}

#[test]
fn target_is_resolved_section_by_section() {
    let app = App::from_matches(config(), &Selection::All).unwrap();
    let resolved = app.generate_for("linux", "default", &host()).unwrap();
    assert_eq!(
        resolved,
        Resolved {
            os_release: Source::Rewrite {
                scratch: "linux-default-os-release".to_string(),
                base: "/etc/os-release".to_string(),
                title: "My Box".to_string(),
                flavor: "default".to_string(),
            },
            cmdline: Some(Source::Text {
                scratch: "linux-default-cmdline".to_string(),
                text: "quiet rw".to_string(),
            }),
            splash: Some("/etc/genuki/splash.bmp".to_string()),
            linux: "/boot/vmlinuz-linux".to_string(),
            initrd: Source::File("/boot/initramfs-linux.img".to_string()),
            efistub: "/usr/lib/systemd/boot/efi/linuxx64.efi.stub".to_string(),
            output: "/out/default.efi".to_string(),
        }
    );
    assert_eq!(app.config().resolve("linux", "default", &host()), Ok(resolved));
}

#[test]
fn first_failing_section_fails_the_target() {
    let app = App::from_matches(config(), &Selection::All).unwrap();
    let nothing = Snapshot::new();
    assert_eq!(
        app.generate_for("linux", "default", &nothing),
        Err(AppError::IoError {
            path: "/usr/lib/os-release".to_string(),
            source: IoCause::NotFound
        })
    );
    let only_os_release = files(&["/etc/os-release"]);
    assert_eq!(app.generate_for("linux", "default", &only_os_release), Err(AppError::InvalidSplash));
    assert_eq!(
        app.generate_for("linux", "fallback", &only_os_release),
        Err(AppError::IoError {
            path: "/boot/vmlinuz-linux".to_string(),
            source: IoCause::NotFound
        })
    );
}

#[test]
fn run_resolves_the_targets_in_order() {
    let app = App::from_matches(config(), &Selection::All).unwrap();
    let all = app.run(&host()).unwrap();
    assert_eq!(all.len(), 2);
    assert_eq!(all[0], app.generate_for("linux", "default", &host()).unwrap());
    assert_eq!(all[1], app.generate_for("linux", "fallback", &host()).unwrap());
    assert_eq!(all[1].output, "/out/fb.efi");
    let none = App::from_matches(config(), &Selection::Matching(Vec::new())).unwrap();
    assert_eq!(none.run(&host()), Ok(Vec::new()));
}

#[test]
fn run_ends_at_the_first_failure() {
    let app = App::from_matches(config(), &Selection::All).unwrap();
    let fs = files(&[
        "/etc/os-release",
        "/boot/vmlinuz-linux",
        "/boot/initramfs-linux.img",
        "/usr/lib/systemd/boot/efi/linuxx64.efi.stub",
        "/etc/genuki/splash.bmp",
    ]);
    assert_eq!(
        app.run(&fs),
        Err(AppError::IoError {
            path: "/boot/initramfs-linux-fallback.img".to_string(),
            source: IoCause::NotFound
        })
    );
    let only_fallback =
        App::from_matches(config(), &Selection::Matching(vec!["fallback".to_string()])).unwrap();
    assert!(only_fallback.run(&fs).is_err());
    let only_default =
        App::from_matches(config(), &Selection::Matching(vec!["default".to_string()])).unwrap();
    assert_eq!(only_default.run(&fs).unwrap().len(), 1);
}

#[test]
fn fallback_with_amd_microcode_example() {
    let app = App::from_matches(config(), &Selection::All).unwrap();
    let mut fs = host();
    fs.record("/boot/amd-ucode.img", FileKind::File, vec![]);
    let resolved = app.generate_for("linux", "fallback", &fs).unwrap();
    assert_eq!(
        resolved.initrd,
        Source::Concat {
            scratch: "linux-fallback-initrd.img".to_string(),
            parts: strings(&["/boot/amd-ucode.img", "/boot/initramfs-linux-fallback.img"]),
        }
    );
    let reads = vec![
        ("/boot/amd-ucode.img".to_string(), Ok(vec![0xAAu8, 0xBB])),
        ("/boot/initramfs-linux-fallback.img".to_string(), Ok(vec![1u8, 2, 3])),
    ];
    assert_eq!(genuki::initrd::merge_images(&reads), Ok(vec![0xAA, 0xBB, 1, 2, 3]));
}
