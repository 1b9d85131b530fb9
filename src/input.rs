//! The move a player types: a row and a column, each in `0..=2`, separated by
//! a comma, as in `1,2`.
//!
//! The line is cut at its commas into fields, and must hold exactly two. Each
//! is trimmed of whitespace and read as a decimal integer with an optional
//! sign.
use vstd::prelude::*;
use vstd::string::*;

verus! {

/// Why a typed move was refused.
#[derive(Clone, Copy, Debug, PartialEq, Eq, Structural)]
pub enum InputError {
    /// The line does not hold exactly one comma, so it is not a row and a
    /// column.
    NotAPair,
    /// A field is not an integer between 0 and 2.
    OutOfRange,
}

/// The characters that Unicode calls white space.
pub open spec fn is_space(c: char) -> bool {
    let u = c as u32;
    ||| 0x09 <= u <= 0x0D
    ||| u == 0x20
    ||| u == 0x85
    ||| u == 0xA0
    ||| u == 0x1680
    ||| 0x2000 <= u <= 0x200A
    ||| u == 0x2028
    ||| u == 0x2029
    ||| u == 0x202F
    ||| u == 0x205F
    ||| u == 0x3000
}

/// The text without its leading white space.
pub open spec fn trim_start(t: Seq<char>) -> Seq<char>
    decreases t.len(),
{
    if t.len() > 0 && is_space(t[0]) {
        trim_start(t.drop_first())
    } else {
        t
    }
}

/// The text without its trailing white space.
pub open spec fn trim_end(t: Seq<char>) -> Seq<char>
    decreases t.len(),
{
    if t.len() > 0 && is_space(t.last()) {
        trim_end(t.drop_last())
    } else {
        t
    }
}

pub open spec fn trim(t: Seq<char>) -> Seq<char> {
    trim_end(trim_start(t))
}

/// The index of the first comma at or after `i`, or the length of the text
/// where there is none.
pub open spec fn field_end(t: Seq<char>, i: int) -> int
    decreases t.len() - i,
{
    if i >= t.len() || t[i] == ',' {
        i
    } else {
        field_end(t, i + 1)
    }
}

pub open spec fn is_digit(c: char) -> bool {
    '0' <= c <= '9'
}

/// The value of a string of decimal digits.
pub open spec fn digits_value(d: Seq<char>) -> int
    decreases d.len(),
{
    if d.len() == 0 {
        0
    } else {
        digits_value(d.drop_last()) * 10 + (d.last() as int - '0' as int)
    }
}

/// The digits of a numeral, after its sign if it has one.
pub open spec fn unsigned_part(c: Seq<char>) -> Seq<char> {
    if c.len() > 0 && (c[0] == '+' || c[0] == '-') {
        c.drop_first()
    } else {
        c
    }
}

/// The coordinate that a field gives: the field, trimmed, is an optional
/// sign and one or more decimal digits whose value lies in `0..=2`, and is
/// `0` where the sign is `-`.
pub open spec fn coordinate(field: Seq<char>) -> Option<int> {
    let c = trim(field);
    let d = unsigned_part(c);
    if d.len() > 0 && (forall|k: int| 0 <= k < d.len() ==> is_digit(#[trigger] d[k]))
        && digits_value(d) <= 2 && (c[0] == '-' ==> digits_value(d) == 0) {
        Some(digits_value(d))
    } else {
        None
    }
}

/// What a typed line gives: the row from the first field, then the column
/// from the second, each checked in that order; a line with a second comma
/// after the column is refused.
pub open spec fn parsed_field(t: Seq<char>) -> Result<(int, int), InputError> {
    let e0 = field_end(t, 0);
    let e1 = field_end(t, e0 + 1);
    if coordinate(t.subrange(0, e0)) is None {
        Err(InputError::OutOfRange)
    } else if e0 == t.len() {
        Err(InputError::NotAPair)
    } else if coordinate(t.subrange(e0 + 1, e1)) is None {
        Err(InputError::OutOfRange)
    } else if e1 < t.len() {
        Err(InputError::NotAPair)
    } else {
        Ok((coordinate(t.subrange(0, e0))->0, coordinate(t.subrange(e0 + 1, e1))->0))
    }
}

proof fn lemma_field_end_bounds(t: Seq<char>, i: int)
    requires
        0 <= i <= t.len(),
    ensures
        i <= field_end(t, i) <= t.len(),
        field_end(t, i) < t.len() ==> t[field_end(t, i)] == ',',
    decreases t.len() - i,
{
    if i < t.len() && t[i] != ',' {
        lemma_field_end_bounds(t, i + 1);
    }
}

/// The index of the first comma of `t` at or after `from`, or its length.
fn find_comma(t: &Vec<char>, from: usize) -> (r: usize)
    requires
        from <= t@.len(),
    ensures
        r == field_end(t@, from as int),
{
    let mut k = from;
    while k < t.len() && t[k] != ','
        invariant
            from <= k <= t@.len(),
            field_end(t@, from as int) == field_end(t@, k as int),
        decreases t@.len() - k,
    {
        k += 1;
    }
    k
}

fn space(c: char) -> (r: bool)
    ensures
        r == is_space(c),
{
    let u = c as u32;
    (0x09 <= u && u <= 0x0D) || u == 0x20 || u == 0x85 || u == 0xA0 || u == 0x1680 || (0x2000 <= u
        && u <= 0x200A) || u == 0x2028 || u == 0x2029 || u == 0x202F || u == 0x205F || u == 0x3000
}

/// The coordinate that `t[lo..hi]` gives, as `coordinate` says.
fn read_coordinate(t: &Vec<char>, lo: usize, hi: usize) -> (r: Option<usize>)
    requires
        lo <= hi <= t@.len(),
    ensures
        r matches Some(v) ==> coordinate(t@.subrange(lo as int, hi as int)) == Some(v as int),
        r is None ==> coordinate(t@.subrange(lo as int, hi as int)) is None,
{
    let ghost f = t@.subrange(lo as int, hi as int);
    let mut i = lo;
    while i < hi && space(t[i])
        invariant
            lo <= i <= hi <= t@.len(),
            trim_start(f) == trim_start(t@.subrange(i as int, hi as int)),
        decreases hi - i,
    {
        assert(t@.subrange(i as int, hi as int).drop_first() =~= t@.subrange(i + 1, hi as int));
        i += 1;
    }
    assert(trim_start(t@.subrange(i as int, hi as int)) == t@.subrange(i as int, hi as int));
    let mut j = hi;
    while j > i && space(t[j - 1])
        invariant
            lo <= i <= j <= hi <= t@.len(),
            trim(f) == trim_end(t@.subrange(i as int, j as int)),
        decreases j - i,
    {
        assert(t@.subrange(i as int, j as int).drop_last() =~= t@.subrange(i as int, j - 1));
        j -= 1;
    }
    let ghost c = t@.subrange(i as int, j as int);
    assert(trim(f) == c);
    if i == j {
        return None;
    }
    let negative = t[i] == '-';
    assert(c[0] == t@[i as int]);
    let start = if t[i] == '+' || t[i] == '-' {
        i + 1
    } else {
        i
    };
    let ghost d = t@.subrange(start as int, j as int);
    assert(unsigned_part(c) =~= d);
    if start == j {
        return None;
    }
    let mut k = start;
    let mut v: u32 = 0;
    while k < j
        invariant
            start <= k <= j <= t@.len(),
            d == t@.subrange(start as int, j as int),
            f == t@.subrange(lo as int, hi as int),
            trim(f) == c,
            unsigned_part(c) == d,
            c.len() > 0,
            negative == (c[0] == '-'),
            forall|m: int| start <= m < k ==> is_digit(#[trigger] t@[m]),
            v == if digits_value(t@.subrange(start as int, k as int)) < 3 {
                digits_value(t@.subrange(start as int, k as int))
            } else {
                3
            },
            0 <= digits_value(t@.subrange(start as int, k as int)),
        decreases j - k,
    {
        let ch = t[k];
        if !('0' <= ch && ch <= '9') {
            assert(!is_digit(d[k - start]));
            return None;
        }
        let ghost before = t@.subrange(start as int, k as int);
        let ghost after = t@.subrange(start as int, k + 1);
        assert(after.drop_last() =~= before);
        assert(digits_value(after) == digits_value(before) * 10 + (ch as int - '0' as int));
        let digit = (ch as u32) - ('0' as u32);
        v = if v * 10 + digit < 3 {
            v * 10 + digit
        } else {
            3
        };
        k += 1;
    }
    assert(d =~= t@.subrange(start as int, k as int));
    assert forall|m: int| 0 <= m < d.len() implies is_digit(#[trigger] d[m]) by {
        assert(d[m] == t@[start + m]);
    }
    if v > 2 || (negative && v != 0) {
        None
    } else {
        Some(v as usize)
    }
}

/// Reads a typed move `row,column`: the row and the column where both are
/// given and lie in `0..=2`, else why not.
pub fn parse_field(input: &str) -> (r: Result<(usize, usize), InputError>)
    ensures
        match parsed_field(input@) {
            Ok((x, y)) => r == Ok::<(usize, usize), InputError>((x as usize, y as usize)) && 0 <= x
                <= 2 && 0 <= y <= 2,
            Err(e) => r == Err::<(usize, usize), InputError>(e),
        },
{
    let n = input.unicode_len();
    let mut t: Vec<char> = Vec::new();
    let mut i: usize = 0;
    while i < n
        invariant
            i <= n,
            n == input@.len(),
            t@ == input@.subrange(0, i as int),
        decreases n - i,
    {
        t.push(input.get_char(i));
        i += 1;
        assert(t@ =~= input@.subrange(0, i as int));
    }
    assert(t@ =~= input@);
    proof {
        lemma_field_end_bounds(t@, 0);
    }
    let e0 = find_comma(&t, 0);
    let x = match read_coordinate(&t, 0, e0) {
        None => return Err(InputError::OutOfRange),
        Some(x) => x,
    };
    if e0 == n {
        return Err(InputError::NotAPair);
    }
    proof {
        lemma_field_end_bounds(t@, e0 + 1);
    }
    let e1 = find_comma(&t, e0 + 1);
    match read_coordinate(&t, e0 + 1, e1) {
        None => Err(InputError::OutOfRange),
        Some(y) => if e1 < n {
            Err(InputError::NotAPair)
        } else {
            Ok((x, y))
        },
    }
}

} // verus!
