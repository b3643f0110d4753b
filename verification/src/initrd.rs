//! The initial ramdisk of a target that names none: the image that goes
//! with the kernel, with the microcode image of the processor in front of
//! it where there is one. And the merge of several images into one.

use vstd::prelude::*;
use vstd::string::StringExecFns;
use crate::config::{OneOrMany, OneOrManyView};
use crate::error::{outcome, AppError, AppErrorView, IoCause, IoCauseView};
use crate::probe::{present, Files, Snapshot};
use crate::text::{same_text, views};

verus! {

/// Where the microcode image for AMD processors is looked for.
pub const AMD_UCODE: &'static str = "/boot/amd-ucode.img";

/// Where the microcode image for Intel processors is looked for.
pub const INTEL_UCODE: &'static str = "/boot/intel-ucode.img";

/// The name of the flavor that boots the fallback image.
pub const FALLBACK: &'static str = "fallback";

/// The image that goes with the kernel: the fallback image for the flavor
/// called `fallback`, the regular image for every other flavor.
pub open spec fn main_initrd(kernel: Seq<char>, flavor: Seq<char>) -> Seq<char> {
    if flavor == FALLBACK@ {
        "/boot/initramfs-"@ + kernel + "-fallback.img"@
    } else {
        "/boot/initramfs-"@ + kernel + ".img"@
    }
}

/// What `populate_initramfs` answers. With both microcode images present
/// there is no telling which one belongs to the processor, and none is
/// taken. With one present it goes in front of the main image. With none
/// the main image stands alone, and not as a list of one.
pub open spec fn detected_initrd(kernel: Seq<char>, flavor: Seq<char>, fs: Files) -> Result<
    OneOrManyView,
    AppErrorView,
> {
    let amd = present(fs, AMD_UCODE@);
    let intel = present(fs, INTEL_UCODE@);
    let main = main_initrd(kernel, flavor);
    if amd && intel {
        Err(AppErrorView::MultipleMicrocode)
    } else if amd {
        Ok(OneOrManyView::Many(seq![AMD_UCODE@, main]))
    } else if intel {
        Ok(OneOrManyView::Many(seq![INTEL_UCODE@, main]))
    } else {
        Ok(OneOrManyView::One(main))
    }
}

/// The mathematical value of the outcome of a detection.
pub open spec fn detection(r: Result<OneOrMany<String>, AppError>) -> Result<
    OneOrManyView,
    AppErrorView,
> {
    match r {
        Ok(found) => Ok(found@),
        Err(e) => Err(e@),
    }
}

/// The path of the image that goes with `kernel` for `flavor`.
pub fn main_image(kernel: &str, flavor: &str) -> (path: String)
    ensures
        path@ == main_initrd(kernel@, flavor@),
{
    let mut path = String::from_str("/boot/initramfs-");
    path.append(kernel);
    if same_text(flavor, FALLBACK) {
        path.append("-fallback.img");
    } else {
        path.append(".img");
    }
    path
}

/// The initial ramdisk of a target that names none, as `fs` shows the
/// microcode images.
pub fn populate_initramfs(kernel: &str, flavor: &str, fs: &Snapshot) -> (r: Result<
    OneOrMany<String>,
    AppError,
>)
    ensures
        detection(r) == detected_initrd(kernel@, flavor@, fs@),
{
    let amd = fs.is_present(AMD_UCODE);
    let intel = fs.is_present(INTEL_UCODE);
    if amd && intel {
        return Err(AppError::MultipleMicrocode);
    }
    let main = main_image(kernel, flavor);
    if amd || intel {
        let ucode = if amd {
            AMD_UCODE
        } else {
            INTEL_UCODE
        };
        let mut list: Vec<String> = Vec::new();
        list.push(String::from_str(ucode));
        list.push(main);
        proof {
            assert(views(list@) =~= seq![ucode@, main_initrd(kernel@, flavor@)]);
        }
        Ok(OneOrMany::Many(list))
    } else {
        Ok(OneOrMany::One(main))
    }
}

/// What was read of one file: its bytes, or why it could not be read.
pub open spec fn read_of(r: Result<Vec<u8>, IoCause>) -> Result<Seq<u8>, IoCauseView> {
    match r {
        Ok(bytes) => Ok(bytes@),
        Err(cause) => Err(cause@),
    }
}

/// What was read of each file of a list, with the path of each.
pub open spec fn reads_of(reads: Seq<(String, Result<Vec<u8>, IoCause>)>) -> Seq<
    (Seq<char>, Result<Seq<u8>, IoCauseView>),
> {
    reads.map_values(|r: (String, Result<Vec<u8>, IoCause>)| (r.0@, read_of(r.1)))
}

/// The bytes of the files one after the other, in the order of the list.
/// The first file that could not be read ends the merge with the error
/// that names it.
pub open spec fn merged(reads: Seq<(Seq<char>, Result<Seq<u8>, IoCauseView>)>) -> Result<
    Seq<u8>,
    AppErrorView,
>
    decreases reads.len(),
{
    if reads.len() == 0 {
        Ok(Seq::<u8>::empty())
    } else {
        match merged(reads.drop_last()) {
            Err(e) => Err(e),
            Ok(bytes) => match reads.last().1 {
                Ok(more) => Ok(bytes + more),
                Err(cause) => Err(AppErrorView::IoError { path: reads.last().0, source: cause }),
            },
        }
    }
}

/// The mathematical value of the outcome of a merge.
pub open spec fn merge_outcome(r: Result<Vec<u8>, AppError>) -> Result<Seq<u8>, AppErrorView> {
    match r {
        Ok(bytes) => Ok(bytes@),
        Err(e) => Err(e@),
    }
}

/// Merges images into one: `reads` holds, in the order of the merge, the
/// path of each image and what reading it gave.
pub fn merge_images(reads: &Vec<(String, Result<Vec<u8>, IoCause>)>) -> (r: Result<
    Vec<u8>,
    AppError,
>)
    ensures
        merge_outcome(r) == merged(reads_of(reads@)),
{
    let mut out: Vec<u8> = Vec::new();
    let mut i: usize = 0;
    let ghost all = reads_of(reads@);
    while i < reads.len()
        invariant
            i <= reads.len(),
            all == reads_of(reads@),
            merged(all.take(i as int)) == Ok::<Seq<u8>, AppErrorView>(out@),
        decreases reads.len() - i,
    {
        proof {
            assert(all.take(i + 1).drop_last() =~= all.take(i as int));
            assert(all.take(i + 1).last() == all[i as int]);
        }
        match &reads[i].1 {
            Ok(bytes) => {
                let mut j: usize = 0;
                let ghost before = out@;
                while j < bytes.len()
                    invariant
                        j <= bytes.len(),
                        out@ == before + bytes@.take(j as int),
                    decreases bytes.len() - j,
                {
                    out.push(bytes[j]);
                    j += 1;
                }
                proof {
                    assert(bytes@.take(bytes.len() as int) =~= bytes@);
                }
            },
            Err(cause) => {
                proof {
                    lemma_merge_stops(all, i as int);
                    assert(all[i as int].1 == Err::<Seq<u8>, IoCauseView>(cause@));
                }
                return Err(AppError::IoError { path: reads[i].0.clone(), source: cause.duplicate() });
            },
        }
        i += 1;
    }
    proof {
        assert(all.take(reads.len() as int) =~= all);
    }
    Ok(out)
}

/// A merge that has failed stays failed, with the same error, whatever
/// comes behind.
pub proof fn lemma_merge_stops(reads: Seq<(Seq<char>, Result<Seq<u8>, IoCauseView>)>, i: int)
    requires
        0 <= i < reads.len(),
        merged(reads.take(i + 1)) is Err,
    ensures
        merged(reads) == merged(reads.take(i + 1)),
    decreases reads.len(),
{
    if i + 1 == reads.len() {
        assert(reads.take(i + 1) =~= reads);
    } else {
        assert(reads.drop_last().take(i + 1) =~= reads.take(i + 1));
        lemma_merge_stops(reads.drop_last(), i);
    }
}

} // verus!
