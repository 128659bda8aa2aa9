//! The grid argument: `ROWSxCOLS`, or `ROWSxCOLSmDISPLAY` to name the
//! display as well.
//!
//! Numbers are decimal, with an optional sign in front: `+` for rows and
//! columns, `+` or `-` for the display. A display that is no number counts
//! as display 0.
use vstd::prelude::*;
use vstd::string::StringSliceAdditionalSpecFns;

verus! {

/// Why a grid argument cannot be read.
#[derive(Clone, Copy, Debug, PartialEq, Eq)]
pub enum GridArgError {
    /// The part before the display does not hold exactly one `x`.
    Shape,
    /// What stands before the `x` is no number of rows.
    Rows,
    /// What stands after the `x` is no number of columns.
    Cols,
}

pub open spec fn is_digit(b: u8) -> bool {
    48 <= b <= 57
}

pub open spec fn all_digits(s: Seq<u8>) -> bool {
    forall|i: int| 0 <= i < s.len() ==> is_digit(#[trigger] s[i])
}

/// The number that a string of decimal digits writes.
pub open spec fn digits_value(s: Seq<u8>) -> nat
    decreases s.len(),
{
    if s.len() == 0 {
        0
    } else {
        digits_value(s.drop_last()) * 10 + (s.last() - 48) as nat
    }
}

/// The number that `s` writes, if `s` is one digit or more and nothing
/// else.
pub open spec fn decimal(s: Seq<u8>) -> Option<nat> {
    if s.len() > 0 && all_digits(s) {
        Some(digits_value(s))
    } else {
        None
    }
}

/// The number that `s` writes, if it is one and is at most `limit`.
pub open spec fn decimal_up_to(s: Seq<u8>, limit: nat) -> Option<nat> {
    match decimal(s) {
        Some(v) => if v <= limit {
            Some(v)
        } else {
            None
        },
        None => None,
    }
}

/// `s` without a `+` in front.
pub open spec fn unsigned_part(s: Seq<u8>) -> Seq<u8> {
    if s.len() > 0 && s[0] == 43 {
        s.subrange(1, s.len() as int)
    } else {
        s
    }
}

pub open spec fn parse_u32(s: Seq<u8>) -> Option<u32> {
    match decimal_up_to(unsigned_part(s), u32::MAX as nat) {
        Some(v) => Some(v as u32),
        None => None,
    }
}

pub open spec fn parse_i32(s: Seq<u8>) -> Option<i32> {
    if s.len() > 0 && s[0] == 45 {
        match decimal_up_to(s.subrange(1, s.len() as int), 0x8000_0000) {
            Some(v) => Some((-(v as int)) as i32),
            None => None,
        }
    } else {
        match decimal_up_to(unsigned_part(s), i32::MAX as nat) {
            Some(v) => Some(v as i32),
            None => None,
        }
    }
}

/// How many bytes of `s` stand before the first `b`; all of them if there
/// is no `b`.
pub open spec fn first_index(s: Seq<u8>, b: u8) -> int
    decreases s.len(),
{
    if s.len() == 0 || s[0] == b {
        0
    } else {
        1 + first_index(s.drop_first(), b)
    }
}

/// What a grid argument says: rows, columns and display.
pub open spec fn grid_arg(s: Seq<u8>) -> Result<(u32, u32, i32), GridArgError> {
    let m = first_index(s, 109);
    let x = first_index(s.subrange(0, m), 120);
    if x >= m || first_index(s.subrange(x + 1, m), 120) < m - x - 1 {
        Err(GridArgError::Shape)
    } else {
        match parse_u32(s.subrange(0, x)) {
            None => Err(GridArgError::Rows),
            Some(rows) => match parse_u32(s.subrange(x + 1, m)) {
                None => Err(GridArgError::Cols),
                Some(cols) => Ok(
                    (
                        rows,
                        cols,
                        if m < s.len() {
                            match parse_i32(s.subrange(m + 1, s.len() as int)) {
                                Some(display) => display,
                                None => 0,
                            }
                        } else {
                            0
                        },
                    ),
                ),
            },
        }
    }
}

/// The first occurrence lies inside the string or at its end, and nothing
/// before it is the byte sought.
pub proof fn first_index_is_first(s: Seq<u8>, b: u8)
    ensures
        0 <= first_index(s, b) <= s.len(),
        first_index(s, b) < s.len() ==> s[first_index(s, b)] == b,
        forall|i: int| 0 <= i < first_index(s, b) ==> s[i] != b,
    decreases s.len(),
{
    if s.len() > 0 && s[0] != b {
        let rest = s.drop_first();
        first_index_is_first(rest, b);
        assert forall|i: int| 0 <= i < first_index(s, b) implies s[i] != b by {
            if i > 0 {
                assert(rest[i - 1] == s[i]);
            }
        }
    }
}

/// A number is at least what its leading digits write.
pub proof fn digits_value_grows(s: Seq<u8>, k: int)
    requires
        0 <= k <= s.len(),
        all_digits(s),
    ensures
        digits_value(s.take(k)) <= digits_value(s),
    decreases s.len(),
{
    if k == s.len() {
        assert(s.take(k) =~= s);
    } else {
        let front = s.drop_last();
        assert(all_digits(front)) by {
            assert forall|i: int| 0 <= i < front.len() implies is_digit(#[trigger] front[i]) by {
                assert(front[i] == s[i]);
            }
        }
        digits_value_grows(front, k);
        assert(front.take(k) =~= s.take(k));
        assert(is_digit(s[s.len() - 1]));
    }
}

/// Finds the first `b` in `text[from..to]`; `to` if there is none.
pub fn find_byte(text: &[u8], from: usize, to: usize, b: u8) -> (at: usize)
    requires
        from <= to <= text@.len(),
    ensures
        at == from + first_index(text@.subrange(from as int, to as int), b),
        from <= at <= to,
{
    let mut i: usize = from;
    proof {
        first_index_is_first(text@.subrange(from as int, to as int), b);
    }
    while i < to
        invariant
            from <= i <= to <= text@.len(),
            first_index(text@.subrange(from as int, to as int), b) == (i - from) + first_index(
                text@.subrange(i as int, to as int),
                b,
            ),
        decreases to - i,
    {
        let rest = Ghost(text@.subrange(i as int, to as int));
        assert(rest@[0] == text@[i as int]);
        if text[i] == b {
            return i;
        }
        assert(rest@.drop_first() =~= text@.subrange(i + 1, to as int));
        i += 1;
    }
    assert(text@.subrange(to as int, to as int).len() == 0);
    to
}

/// Reads `text[from..to]` as a number of one decimal digit or more that is
/// at most `limit`.
pub fn read_decimal(text: &[u8], from: usize, to: usize, limit: u64) -> (value: Option<u64>)
    requires
        from <= to <= text@.len(),
        limit <= 0x1_0000_0000,
    ensures
        match value {
            Some(v) => decimal_up_to(text@.subrange(from as int, to as int), limit as nat) == Some(
                v as nat,
            ),
            None => decimal_up_to(text@.subrange(from as int, to as int), limit as nat) is None,
        },
{
    let ghost all = text@.subrange(from as int, to as int);
    if from == to {
        return None;
    }
    let mut acc: u64 = 0;
    let mut i: usize = from;
    assert(all.take(0) =~= Seq::<u8>::empty());
    while i < to
        invariant
            from <= i <= to <= text@.len(),
            from < to,
            all == text@.subrange(from as int, to as int),
            limit <= 0x1_0000_0000,
            acc <= limit,
            acc == digits_value(all.take(i - from)),
            all_digits(all.take(i - from)),
        decreases to - i,
    {
        let b: u8 = text[i];
        assert(all[i - from] == b);
        if b < 48 || b > 57 {
            assert(!is_digit(all[i - from]));
            return None;
        }
        let ghost upto = all.take(i - from + 1);
        proof {
            assert(upto.drop_last() =~= all.take(i - from));
            assert(upto.last() == b);
            assert forall|j: int| 0 <= j < upto.len() implies is_digit(#[trigger] upto[j]) by {
                if j < i - from {
                    assert(all.take(i - from)[j] == upto[j]);
                }
            }
        }
        let next: u64 = acc * 10 + (b - 48) as u64;
        if next > limit {
            proof {
                if all_digits(all) {
                    digits_value_grows(all, i - from + 1);
                }
            }
            return None;
        }
        acc = next;
        i += 1;
    }
    assert(all.take(to - from) =~= all);
    Some(acc)
}

/// Reads `text[from..to]` as a `u32`, with an optional `+` in front.
pub fn read_u32(text: &[u8], from: usize, to: usize) -> (value: Option<u32>)
    requires
        from <= to <= text@.len(),
    ensures
        value == parse_u32(text@.subrange(from as int, to as int)),
{
    let ghost all = text@.subrange(from as int, to as int);
    let start: usize = if from < to && text[from] == 43 {
        from + 1
    } else {
        from
    };
    proof {
        if from < to {
            assert(all[0] == text@[from as int]);
        }
        assert(unsigned_part(all) =~= text@.subrange(start as int, to as int));
    }
    match read_decimal(text, start, to, 0xffff_ffff) {
        Some(v) => Some(v as u32),
        None => None,
    }
}

/// Reads `text[from..to]` as an `i32`, with an optional sign in front.
pub fn read_i32(text: &[u8], from: usize, to: usize) -> (value: Option<i32>)
    requires
        from <= to <= text@.len(),
    ensures
        value == parse_i32(text@.subrange(from as int, to as int)),
{
    let ghost all = text@.subrange(from as int, to as int);
    proof {
        if from < to {
            assert(all[0] == text@[from as int]);
        }
    }
    if from < to && text[from] == 45 {
        assert(all.subrange(1, all.len() as int) =~= text@.subrange(from + 1, to as int));
        match read_decimal(text, from + 1, to, 0x8000_0000) {
            Some(v) => {
                let negated: i64 = -(v as i64);
                Some(negated as i32)
            },
            None => None,
        }
    } else {
        let start: usize = if from < to && text[from] == 43 {
            from + 1
        } else {
            from
        };
        assert(unsigned_part(all) =~= text@.subrange(start as int, to as int));
        match read_decimal(text, start, to, 0x7fff_ffff) {
            Some(v) => Some(v as i32),
            None => None,
        }
    }
}

/// Reads a grid argument. The display is what follows the first `m`; what
/// stands before it must be rows and columns around a single `x`.
pub fn parse_grid_arg(grid_str: &str) -> (parsed: Result<(u32, u32, i32), GridArgError>)
    ensures
        parsed == grid_arg(grid_str.spec_bytes()),
{
    let text = grid_str.as_bytes();
    let n: usize = text.len();
    assert(text@.subrange(0, n as int) =~= text@);
    let m: usize = find_byte(text, 0, n, 109);
    let x: usize = find_byte(text, 0, m, 120);
    if x >= m {
        return Err(GridArgError::Shape);
    }
    let second: usize = find_byte(text, x + 1, m, 120);
    if second < m {
        return Err(GridArgError::Shape);
    }
    let rows: u32 = match read_u32(text, 0, x) {
        Some(rows) => rows,
        None => {
            return Err(GridArgError::Rows);
        },
    };
    let cols: u32 = match read_u32(text, x + 1, m) {
        Some(cols) => cols,
        None => {
            return Err(GridArgError::Cols);
        },
    };
    let display: i32 = if m < n {
        match read_i32(text, m + 1, n) {
            Some(display) => display,
            None => 0,
        }
    } else {
        0
    };
    Ok((rows, cols, display))
}

} // verus!
