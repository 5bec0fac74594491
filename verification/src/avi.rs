//! Recovering AVI videos from the `.CHK` fragments that a disk check leaves
//! behind: the video starts at the first `RIFF` tag, provided the form type
//! eight bytes further on is `AVI `.

use vstd::prelude::*;

verus! {

/// `RIFF`
pub open spec fn riff_tag() -> Seq<u8> {
    seq![82u8, 73, 70, 70]
}

/// `AVI ` (with the trailing space)
pub open spec fn avi_form() -> Seq<u8> {
    seq![65u8, 86, 73, 32]
}

/// The four bytes at `i` spell `RIFF`.
pub open spec fn riff_at(data: Seq<u8>, i: int) -> bool {
    0 <= i && i + 4 <= data.len() && data.subrange(i, i + 4) == riff_tag()
}

/// `i` is where the first `RIFF` tag starts.
pub open spec fn first_riff_at(data: Seq<u8>, i: int) -> bool {
    riff_at(data, i) && forall|j: int| 0 <= j < i ==> !riff_at(data, j)
}

/// The first `RIFF` tag, if any, is followed by the eight bytes of its size
/// and form type: reading the form type stays inside the data.
pub open spec fn riff_header_fits(data: Seq<u8>) -> bool {
    forall|i: int| first_riff_at(data, i) ==> i + 12 <= data.len()
}

/// What a `.CHK` fragment holds.
#[derive(Clone, Copy, Debug, PartialEq, Eq)]
pub enum ChkScan {
    /// An AVI video starts at this offset; everything from there on is the
    /// recovered file.
    Avi(usize),
    /// The first `RIFF` tag is at this offset, but its form type is not `AVI `.
    NotAvi(usize),
    /// There is no `RIFF` tag.
    NoRiff,
}

/// Where the first `RIFF` tag starts, if anywhere.
pub fn find_riff(data: &[u8]) -> (r: Option<usize>)
    ensures
        match r {
            Some(i) => first_riff_at(data@, i as int),
            None => forall|i: int| !riff_at(data@, i),
        },
{
    let n = data.len();
    if n < 4 {
        return None;
    }
    let mut i: usize = 0;
    while i < n - 3
        invariant
            n == data@.len(),
            4 <= n,
            i <= n - 3,
            forall|j: int| 0 <= j < i ==> !riff_at(data@, j),
        decreases n - i,
    {
        if data[i] == 82 && data[i + 1] == 73 && data[i + 2] == 70 && data[i + 3] == 70 {
            assert(data@.subrange(i as int, i + 4) =~= riff_tag());
            return Some(i);
        }
        assert(!riff_at(data@, i as int)) by {
            if riff_at(data@, i as int) {
                assert(data@.subrange(i as int, i + 4)[0] == data@[i as int]);
                assert(data@.subrange(i as int, i + 4)[1] == data@[i + 1]);
                assert(data@.subrange(i as int, i + 4)[2] == data@[i + 2]);
                assert(data@.subrange(i as int, i + 4)[3] == data@[i + 3]);
            }
        }
        i = i + 1;
    }
    None
}

/// Whether the form type of the first `RIFF` tag lies inside the data, which
/// `scan_chk` needs.
pub fn riff_header_complete(data: &[u8]) -> (r: bool)
    ensures
        r == riff_header_fits(data@),
{
    match find_riff(data) {
        Some(i) => {
            proof {
                assert forall|k: int| first_riff_at(data@, k) implies k == i by {
                    if k < i {
                        assert(!riff_at(data@, k));
                    } else if k > i {
                        assert(!riff_at(data@, i as int));
                    }
                }
            }
            data.len() >= 12 && i <= data.len() - 12
        },
        None => true,
    }
}

/// Finds the AVI video in a `.CHK` fragment: the first `RIFF` tag, when the
/// four bytes eight further on are `AVI `.
pub fn scan_chk(data: &[u8]) -> (r: ChkScan)
    requires
        riff_header_fits(data@),
    ensures
        match r {
            ChkScan::Avi(i) => first_riff_at(data@, i as int) && data@.subrange(
                i + 8,
                i + 12,
            ) == avi_form(),
            ChkScan::NotAvi(i) => first_riff_at(data@, i as int) && data@.subrange(
                i + 8,
                i + 12,
            ) != avi_form(),
            ChkScan::NoRiff => forall|i: int| !riff_at(data@, i),
        },
{
    match find_riff(data) {
        Some(i) => {
            let n = data.len();
            assert(first_riff_at(data@, i as int));
            assert(i + 12 <= n);
            let ghost form = data@.subrange(i + 8, i + 12);
            if data[i + 8] == 65 && data[i + 9] == 86 && data[i + 10] == 73 && data[i + 11] == 32 {
                assert(form =~= avi_form());
                ChkScan::Avi(i)
            } else {
                assert(form != avi_form()) by {
                    if form == avi_form() {
                        assert(form[0] == data@[i + 8]);
                        assert(form[1] == data@[i + 9]);
                        assert(form[2] == data@[i + 10]);
                        assert(form[3] == data@[i + 11]);
                    }
                }
                ChkScan::NotAvi(i)
            }
        },
        None => ChkScan::NoRiff,
    }
}

/// `b` with ASCII upper-case letters turned to lower case, as
/// `to_ascii_lowercase` does.
pub open spec fn ascii_lower(b: u8) -> u8 {
    if 65 <= b <= 90 {
        (b + 32) as u8
    } else {
        b
    }
}

/// The extension is `chk` in any mix of cases.
pub open spec fn is_chk_spec(ext: Seq<u8>) -> bool {
    ext.len() == 3 && ascii_lower(ext[0]) == 99 && ascii_lower(ext[1]) == 104 && ascii_lower(
        ext[2],
    ) == 107
}

fn lower(b: u8) -> (r: u8)
    ensures
        r == ascii_lower(b),
{
    if 65 <= b && b <= 90 {
        b + 32
    } else {
        b
    }
}

/// Whether a file extension marks a `.CHK` fragment, ignoring case.
pub fn is_chk_extension(ext: &[u8]) -> (r: bool)
    ensures
        r == is_chk_spec(ext@),
{
    ext.len() == 3 && lower(ext[0]) == 99 && lower(ext[1]) == 104 && lower(ext[2]) == 107
}

/// The name of the recovered file: the fragment's stem and `.avi`.
pub fn avi_file_name(stem: &str) -> (name: String)
    ensures
        name@ == stem@ + ".avi"@,
{
    let mut name = String::new();
    name.append(stem);
    name.append(".avi");
    name
}

} // verus!
