//! Choosing the image of an `.ico` file that best fits a requested size.
//!
//! An `.ico` file starts with a six-byte header whose bytes 4 and 5 hold the
//! number of images, little-endian; sixteen-byte directory entries follow.
//! Byte 0 of an entry is the image's width, bytes 8 to 11 its length and
//! bytes 12 to 15 its offset in the file.
use vstd::prelude::*;

verus! {

pub open spec fn le_u16(b: Seq<u8>, i: int) -> int {
    b[i] as int + b[i + 1] as int * 256
}

pub open spec fn le_u32(b: Seq<u8>, i: int) -> int {
    b[i] as int + b[i + 1] as int * 256 + b[i + 2] as int * 65536 + b[i + 3] as int * 16777216
}

/// The number of images that the header announces.
pub open spec fn entry_count(b: Seq<u8>) -> int {
    le_u16(b, 4)
}

/// The number of directory entries read: those announced, as far as they
/// lie whole inside the file.
pub open spec fn entries_read(b: Seq<u8>) -> int {
    let whole = (b.len() - 6) / 16;
    if entry_count(b) <= whole {
        entry_count(b)
    } else {
        whole
    }
}

pub open spec fn entry_width(b: Seq<u8>, i: int) -> int {
    b[6 + 16 * i] as int
}

pub open spec fn entry_length(b: Seq<u8>, i: int) -> int {
    le_u32(b, 6 + 16 * i + 8)
}

pub open spec fn entry_offset(b: Seq<u8>, i: int) -> int {
    le_u32(b, 6 + 16 * i + 12)
}

/// The image of entry `i` lies inside the file.
pub open spec fn entry_fits(b: Seq<u8>, i: int) -> bool {
    entry_offset(b, i) + entry_length(b, i) <= b.len()
}

pub open spec fn abs(x: int) -> int {
    if x < 0 {
        -x
    } else {
        x
    }
}

/// The width and offset of the best entry among the first `n`: each fitting
/// entry replaces the one kept so far when none is kept (kept width 0) or
/// when its width is strictly closer to `size`.
pub open spec fn best_entry(b: Seq<u8>, size: int, n: int) -> (int, int)
    decreases n,
{
    if n <= 0 {
        (0, 0)
    } else {
        let (best_w, best_off) = best_entry(b, size, n - 1);
        let i = n - 1;
        let w = entry_width(b, i);
        if entry_fits(b, i) && (best_w == 0 || abs(w - size) < abs(best_w - size)) {
            (w, entry_offset(b, i))
        } else {
            (best_w, best_off)
        }
    }
}

/// The first of the first `n` entries whose offset is `off`.
pub open spec fn first_with_offset(b: Seq<u8>, n: int, off: int) -> Option<int>
    decreases n,
{
    if n <= 0 {
        None
    } else {
        match first_with_offset(b, n - 1, off) {
            Some(i) => Some(i),
            None => if entry_offset(b, n - 1) == off {
                Some(n - 1)
            } else {
                None
            },
        }
    }
}

/// The offset and the length of the image picked for `size`: the best
/// entry's offset, with the length of the first entry at that offset; none
/// where the file is too short, nothing was picked, the offset is 0 or the
/// length is 0.
pub open spec fn icon_image_spec(b: Seq<u8>, size: int) -> Option<(int, int)> {
    if b.len() < 6 {
        None
    } else {
        let m = entries_read(b);
        let (_w, off) = best_entry(b, size, m);
        if off == 0 {
            None
        } else {
            let len = match first_with_offset(b, m, off) {
                Some(i) => entry_length(b, i),
                None => 0,
            };
            if len == 0 {
                None
            } else {
                Some((off, len))
            }
        }
    }
}

fn read_le_u32(b: &[u8], i: usize) -> (v: u64)
    requires
        i + 4 <= b@.len(),
    ensures
        v as int == le_u32(b@, i as int),
        v <= 0xffff_ffff,
{
    b[i] as u64 + b[i + 1] as u64 * 256 + b[i + 2] as u64 * 65536 + b[i + 3] as u64 * 16777216
}

/// Picks the image of an icon file for the requested size: its offset and
/// its length in the file.
pub fn select_icon_image(ico: &[u8], size: i32) -> (r: Option<(usize, usize)>)
    requires
        i32::MIN + 256 <= size,
    ensures
        r == (match icon_image_spec(ico@, size as int) {
            Some((off, len)) => Some((off as usize, len as usize)),
            None => None,
        }),
{
    if ico.len() < 6 {
        return None;
    }
    let ghost b = ico@;
    let count = ico[4] as usize + ico[5] as usize * 256;
    let sz: i64 = size as i64;
    let mut best_w: i64 = 0;
    let mut best_off: u64 = 0;
    let mut i: usize = 0;
    while i < count
        invariant
            b == ico@,
            b.len() >= 6,
            sz == size as i64,
            count as int == entry_count(b),
            count <= 65535,
            i <= count,
            i <= (b.len() - 6) / 16,
            (best_w as int, best_off as int) == best_entry(b, size as int, i as int),
            0 <= best_w <= 255,
            best_off <= 0xffff_ffff,
        ensures
            i as int == entries_read(b),
            (best_w as int, best_off as int) == best_entry(b, size as int, i as int),
            best_off <= 0xffff_ffff,
        decreases count - i,
    {
        let entry = 6 + i * 16;
        if entry + 16 > ico.len() {
            assert(i as int == (b.len() - 6) / 16) by (nonlinear_arith)
                requires
                    6 + i * 16 + 16 > b.len(),
                    i <= (b.len() - 6) / 16,
                    b.len() >= 6,
            ;
            break;
        }
        assert(i + 1 <= (b.len() - 6) / 16) by (nonlinear_arith)
            requires
                6 + i * 16 + 16 <= b.len(),
        ;
        let w = ico[entry] as i64;
        let img = read_le_u32(ico, entry + 8);
        let off = read_le_u32(ico, entry + 12);
        if off + img <= ico.len() as u64 {
            let d = if w - sz < 0 {
                sz - w
            } else {
                w - sz
            };
            let bd = if best_w - sz < 0 {
                sz - best_w
            } else {
                best_w - sz
            };
            if best_w == 0 || d < bd {
                best_w = w;
                best_off = off;
            }
        }
        i = i + 1;
    }
    if best_off == 0 {
        return None;
    }
    let m = i;
    let mut img_len: u64 = 0;
    let mut j: usize = 0;
    while j < m
        invariant_except_break
            first_with_offset(b, j as int, best_off as int) is None,
            img_len == 0,
        invariant
            b == ico@,
            m as int == entries_read(b),
            m <= (b.len() - 6) / 16,
            j <= m,
        ensures
            img_len as int == (match first_with_offset(b, m as int, best_off as int) {
                Some(k) => entry_length(b, k),
                None => 0,
            }),
        decreases m - j,
    {
        assert(6 + j * 16 + 16 <= b.len()) by (nonlinear_arith)
            requires
                j < m,
                m <= (b.len() - 6) / 16,
        ;
        let entry = 6 + j * 16;
        let off = read_le_u32(ico, entry + 12);
        if off == best_off {
            img_len = read_le_u32(ico, entry + 8);
            assert(first_with_offset(b, j + 1, best_off as int) == Some(j as int));
            proof {
                lemma_first_with_offset_stays(b, j + 1, m as int, best_off as int, j as int);
            }
            break;
        }
        j = j + 1;
    }
    if img_len == 0 {
        return None;
    }
    Some((best_off as usize, img_len as usize))
}

proof fn lemma_first_with_offset_stays(b: Seq<u8>, n: int, m: int, off: int, i: int)
    requires
        n <= m,
        first_with_offset(b, n, off) == Some(i),
    ensures
        first_with_offset(b, m, off) == Some(i),
    decreases m - n,
{
    if n < m {
        lemma_first_with_offset_stays(b, n, m - 1, off, i);
    }
}

/// Among the first `n` directory entries, where every one gives a nonzero
/// width, the entry picked lies inside the file and its width is the
/// closest to the requested size of all entries that lie inside the file;
/// of equally close ones the first is picked. Where none lies inside the
/// file, nothing is picked.
pub proof fn lemma_best_entry_closest(b: Seq<u8>, size: int, n: int)
    requires
        0 <= n,
        forall|i: int| 0 <= i < n ==> #[trigger] entry_width(b, i) != 0,
    ensures
        (forall|i: int| 0 <= i < n ==> !#[trigger] entry_fits(b, i)) ==> best_entry(b, size, n)
            == (0int, 0int),
        (exists|i: int| 0 <= i < n && #[trigger] entry_fits(b, i)) ==> exists|j: int|
            #![trigger entry_offset(b, j)]
            0 <= j < n && entry_fits(b, j) && best_entry(b, size, n) == (entry_width(b, j),
                entry_offset(b, j)) && (forall|i: int|
                0 <= i < n && #[trigger] entry_fits(b, i) ==> abs(entry_width(b, j) - size) <= abs(
                    entry_width(b, i) - size,
                )) && (forall|i: int|
                0 <= i < j && #[trigger] entry_fits(b, i) ==> abs(entry_width(b, j) - size) < abs(
                    entry_width(b, i) - size,
                )),
    decreases n,
{
    if n > 0 {
        let m = n - 1;
        lemma_best_entry_closest(b, size, m);
        let (bw, boff) = best_entry(b, size, m);
        let w = entry_width(b, m);
        let any_prev = exists|i: int| 0 <= i < m && #[trigger] entry_fits(b, i);
        if any_prev {
            let j = choose|j: int|
                #![trigger entry_offset(b, j)]
                0 <= j < m && entry_fits(b, j) && best_entry(b, size, m) == (entry_width(b, j),
                    entry_offset(b, j)) && (forall|i: int|
                    0 <= i < m && #[trigger] entry_fits(b, i) ==> abs(entry_width(b, j) - size)
                        <= abs(entry_width(b, i) - size)) && (forall|i: int|
                    0 <= i < j && #[trigger] entry_fits(b, i) ==> abs(entry_width(b, j) - size)
                        < abs(entry_width(b, i) - size));
            assert(bw != 0);
            if entry_fits(b, m) && abs(w - size) < abs(bw - size) {
                assert(entry_offset(b, m) == entry_offset(b, m));
            } else {
                assert(entry_offset(b, j) == entry_offset(b, j));
            }
        } else {
            if entry_fits(b, m) {
                assert(entry_offset(b, m) == entry_offset(b, m));
            } else {
                assert forall|i: int| 0 <= i < n implies !#[trigger] entry_fits(b, i) by {}
            }
        }
    }
}

} // verus!
