use genuki::config::OneOrMany;
use genuki::error::{AppError, IoCause};
use genuki::initrd::{main_image, merge_images, populate_initramfs};
use genuki::probe::{FileKind, Snapshot};

fn seen(paths: &[&str]) -> Snapshot {
    let mut fs = Snapshot::new();
    for p in paths {
        fs.record(p, FileKind::File, vec![]);
    }
    fs
}

#[test]
fn main_image_goes_by_kernel_and_flavor() {
    assert_eq!(main_image("linux", "default"), "/boot/initramfs-linux.img");
    assert_eq!(main_image("linux", "fallback"), "/boot/initramfs-linux-fallback.img");
    assert_eq!(main_image("linux-lts", "Fallback"), "/boot/initramfs-linux-lts.img");
    assert_eq!(main_image("", ""), "/boot/initramfs-.img");
}

#[test]
fn both_microcode_images_are_refused() {
    let fs = seen(&["/boot/amd-ucode.img", "/boot/intel-ucode.img"]);
    assert_eq!(populate_initramfs("linux", "default", &fs), Err(AppError::MultipleMicrocode));
    assert_eq!(populate_initramfs("linux", "fallback", &fs), Err(AppError::MultipleMicrocode));
}

#[test]
fn one_microcode_image_goes_first() {
    let amd = seen(&["/boot/amd-ucode.img"]);
    assert_eq!(
        populate_initramfs("linux", "default", &amd),
        Ok(OneOrMany::Many(vec![
            "/boot/amd-ucode.img".to_string(),
            "/boot/initramfs-linux.img".to_string()
        ]))
    );
    let mut intel = Snapshot::new();
    intel.record("/boot/intel-ucode.img", FileKind::Directory, vec![]);
    assert_eq!(
        populate_initramfs("linux", "fallback", &intel),
        Ok(OneOrMany::Many(vec![
            "/boot/intel-ucode.img".to_string(),
            "/boot/initramfs-linux-fallback.img".to_string()
        ]))
    );
}

#[test]
fn no_microcode_image_leaves_the_main_image_alone() {
    let fs = seen(&["/boot/initramfs-linux.img"]);
    assert_eq!(
        populate_initramfs("linux", "default", &fs),
        Ok(OneOrMany::One("/boot/initramfs-linux.img".to_string()))
    );
}

#[test]
fn merge_is_the_bytes_in_order() {
    let reads = vec![
        ("/boot/amd-ucode.img".to_string(), Ok(vec![1u8, 2, 3])),
        ("/boot/initramfs-linux-fallback.img".to_string(), Ok(vec![9u8, 8])),
    ];
    assert_eq!(merge_images(&reads), Ok(vec![1, 2, 3, 9, 8]));
    assert_eq!(merge_images(&Vec::new()), Ok(Vec::new()));
    let with_empty = vec![
        ("a".to_string(), Ok(vec![])),
        ("b".to_string(), Ok(vec![7u8])),
        ("c".to_string(), Ok(vec![])),
    ];
    assert_eq!(merge_images(&with_empty), Ok(vec![7]));
}

#[test]
fn merge_fails_with_the_first_unreadable_file() {
    let reads = vec![
        ("a".to_string(), Ok(vec![1u8])),
        ("b".to_string(), Err(IoCause::Other("permission denied".to_string()))),
        ("c".to_string(), Err(IoCause::NotFound)),
        ("d".to_string(), Ok(vec![2u8])),
    ];
    assert_eq!(
        merge_images(&reads),
        Err(AppError::IoError {
            path: "b".to_string(),
            source: IoCause::Other("permission denied".to_string())
        })
    );
}
