use genuki::config::{Config, Flavor, InlineOrPath, Kernel, OneOrMany};
use genuki::error::{AppError, IoCause};
use genuki::os_release::rewrite_os_release;
use genuki::logger::{init_logger, Level, Logger, Stream};
use genuki::plan::Resolved;
use genuki::source::Source;

#[test]
fn failures_in_words() {
    assert_eq!(AppError::InvalidSplash.message(), "Splash image is not a valid bmp file");
    assert_eq!(
        AppError::IoError { path: "/boot/vmlinuz-linux".to_string(), source: IoCause::NotFound }
            .message(),
        "I/O error (path: \"/boot/vmlinuz-linux\", reason: entity not found)"
    );
    assert_eq!(
        AppError::IoError { path: "/boot".to_string(), source: IoCause::InvalidInput }.message(),
        "I/O error (path: \"/boot\", reason: invalid input parameter)"
    );
    assert_eq!(
        AppError::IoError { path: "x".to_string(), source: IoCause::Other("denied".to_string()) }
            .message(),
        "I/O error (path: \"x\", reason: denied)"
    );
    assert_eq!(AppError::NotProvided("linux").message(), "Argument linux was not provided!");
    assert_eq!(AppError::MultipleMicrocode.message(), "Multiple microcode images found");
}

#[test]
fn causes_in_the_words_of_the_system() {
    let not_found: std::io::Error = std::io::ErrorKind::NotFound.into();
    let invalid: std::io::Error = std::io::ErrorKind::InvalidInput.into();
    assert_eq!(IoCause::NotFound.reason(), not_found.to_string());
    assert_eq!(IoCause::InvalidInput.reason(), invalid.to_string());
    assert_eq!(IoCause::Other("x".to_string()).duplicate(), IoCause::Other("x".to_string()));
    assert_eq!(IoCause::NotFound.duplicate(), IoCause::NotFound);
}

#[test]
fn verbosity_sets_the_level() {
    assert_eq!(init_logger(0), Level::Warn);
    assert_eq!(init_logger(1), Level::Info);
    assert_eq!(init_logger(2), Level::Debug);
    assert_eq!(init_logger(u64::MAX), Level::Debug);
}

#[test]
fn levels_have_tags_and_streams() {
    let logger = Logger;
    assert_eq!(logger.tag(Level::Info), Some("[i]"));
    assert_eq!(logger.tag(Level::Warn), Some("[w]"));
    assert_eq!(logger.tag(Level::Error), Some("[e]"));
    assert_eq!(logger.tag(Level::Debug), Some("[d]"));
    assert_eq!(logger.tag(Level::Trace), None);
    assert_eq!(logger.stream(Level::Info), Stream::Output);
    assert_eq!(logger.stream(Level::Debug), Stream::Output);
    assert_eq!(logger.stream(Level::Warn), Stream::Error);
    assert_eq!(logger.stream(Level::Error), Stream::Error);
    assert!(logger.enabled(Level::Trace));
}

fn sorted(mut paths: Vec<String>) -> Vec<String> {
    paths.sort();
    paths.dedup();
    paths
}

#[test]
fn defaults_are_what_is_looked_at() {
    let config = Config::new("/etc/genuki")
        .with_kernel("linux", Kernel::new().with_flavor("fallback", Flavor::new("out")));
    assert_eq!(
        sorted(config.probe_paths("linux", "fallback")),
        vec![
            "/boot/amd-ucode.img".to_string(),
            "/boot/initramfs-linux-fallback.img".to_string(),
            "/boot/intel-ucode.img".to_string(),
            "/boot/vmlinuz-linux".to_string(),
            "/etc/os-release".to_string(),
            "/usr/lib/os-release".to_string(),
            "/usr/lib/systemd/boot/efi/linuxx64.efi.stub".to_string(),
        ]
    );
}

#[test]
fn settings_are_what_is_looked_at() {
    let mut flavor = Flavor::new("out");
    flavor.os_release = Some(InlineOrPath::Inline { inline: "ID=x".to_string() });
    flavor.cmdline = Some(InlineOrPath::Path("cmdline".to_string()));
    flavor.initrd = Some(OneOrMany::Many(vec!["a".to_string(), "b".to_string()]));
    flavor.efistub = Some("../stub".to_string());
    let kernel = Kernel::new().with_defaults(
        Some(InlineOrPath::Path("/unused".to_string())),
        Some("/vmlinuz".to_string()),
        Some("s.bmp".to_string()),
        None,
    );
    let config = Config::new("/etc/genuki").with_kernel("k", kernel.with_flavor("f", flavor));
    assert_eq!(
        sorted(config.probe_paths("k", "f")),
        vec![
            "/etc/genuki/cmdline".to_string(),
            "/etc/genuki/s.bmp".to_string(),
            "/etc/stub".to_string(),
            "/vmlinuz".to_string(),
        ]
    );
}

#[test]
fn scratch_lists_what_has_to_be_written() {
    let text = Source::Text { scratch: "a".to_string(), text: "t".to_string() };
    let merged = Source::Concat { scratch: "b".to_string(), parts: Vec::new() };
    let rewrite = Source::Rewrite {
        scratch: "c".to_string(),
        base: "/etc/os-release".to_string(),
        title: "T".to_string(),
        flavor: "f".to_string(),
    };
    let mut resolved = Resolved {
        os_release: rewrite.clone(),
        cmdline: Some(text.clone()),
        splash: None,
        linux: "/l".to_string(),
        initrd: merged.clone(),
        efistub: "/e".to_string(),
        output: "/o".to_string(),
    };
    assert_eq!(resolved.scratch(), vec![&rewrite, &text, &merged]);
    resolved.os_release = Source::File("/etc/os-release".to_string());
    resolved.cmdline = Some(Source::File("/c".to_string()));
    assert_eq!(resolved.scratch(), vec![&merged]);
    resolved.cmdline = None;
    resolved.initrd = Source::File("/i".to_string());
    assert_eq!(resolved.scratch(), Vec::<&Source>::new());
    assert!(!Source::File("/x".to_string()).is_synthesized());
    assert_eq!(Source::File("/x".to_string()).path(), "/x");
    assert_eq!(rewrite.path(), "/tmp/c");
}

fn no_reads() -> Vec<(String, Result<Vec<u8>, IoCause>)> {
    Vec::new()
}

#[test]
fn file_has_nothing_to_write() {
    let file = Source::File("/boot/vmlinuz-linux".to_string());
    assert_eq!(file.inputs(), Vec::<String>::new());
    assert_eq!(file.content(&Ok(String::new()), &no_reads()), Ok(None));
    assert_eq!(file.content(&Err(IoCause::NotFound), &no_reads()), Ok(None));
}

#[test]
fn text_is_written_as_it_is() {
    let text = Source::Text { scratch: "a".to_string(), text: "quiet rw é\n".to_string() };
    assert_eq!(text.inputs(), Vec::<String>::new());
    assert_eq!(
        text.content(&Err(IoCause::NotFound), &no_reads()),
        Ok(Some("quiet rw é\n".as_bytes().to_vec()))
    );
    let empty = Source::Text { scratch: "a".to_string(), text: String::new() };
    assert_eq!(empty.content(&Ok(String::new()), &no_reads()), Ok(Some(Vec::new())));
}

#[test]
fn rewrite_is_the_os_release_rewritten() {
    let rewrite = Source::Rewrite {
        scratch: "linux-default-os-release".to_string(),
        base: "/etc/os-release".to_string(),
        title: "My Box".to_string(),
        flavor: "default".to_string(),
    };
    assert_eq!(rewrite.inputs(), vec!["/etc/os-release".to_string()]);
    let base = "NAME=x\nPRETTY_NAME=y\nID=arch".to_string();
    assert_eq!(
        rewrite.content(&Ok(base.clone()), &no_reads()),
        Ok(Some(b"NAME=x\nPRETTY_NAME=\"My Box\"\nID=arch-default\n".to_vec()))
    );
    assert_eq!(
        rewrite.content(&Ok(base.clone()), &no_reads()),
        Ok(Some(rewrite_os_release(&base, "My Box", "default").into_bytes()))
    );
    assert_eq!(
        rewrite.content(&Err(IoCause::Other("denied".to_string())), &no_reads()),
        Err(AppError::IoError {
            path: "/etc/os-release".to_string(),
            source: IoCause::Other("denied".to_string())
        })
    );
}

#[test]
fn merge_is_the_images_in_order() {
    let merge = Source::Concat {
        scratch: "linux-default-initrd.img".to_string(),
        parts: vec!["/boot/amd-ucode.img".to_string(), "/boot/initramfs-linux.img".to_string()],
    };
    assert_eq!(
        merge.inputs(),
        vec!["/boot/amd-ucode.img".to_string(), "/boot/initramfs-linux.img".to_string()]
    );
    let reads = vec![
        ("/boot/amd-ucode.img".to_string(), Ok(vec![1u8, 2])),
        ("/boot/initramfs-linux.img".to_string(), Ok(vec![3u8])),
    ];
    assert_eq!(merge.content(&Err(IoCause::NotFound), &reads), Ok(Some(vec![1, 2, 3])));
    let failing = vec![
        ("/boot/amd-ucode.img".to_string(), Ok(vec![1u8, 2])),
        ("/boot/initramfs-linux.img".to_string(), Err(IoCause::NotFound)),
    ];
    assert_eq!(
        merge.content(&Ok(String::new()), &failing),
        Err(AppError::IoError {
            path: "/boot/initramfs-linux.img".to_string(),
            source: IoCause::NotFound
        })
    );
}
