use vstd::prelude::*;

use crate::board::Board;
use vstd::string::StrSliceExecFns;

verus! {

/// An ASCII whitespace character, as token separators go.
pub open spec fn is_space(c: char) -> bool {
    c == ' ' || c == '\t' || c == '\n' || c == '\r' || c == '\u{c}'
}

/// A decimal digit.
pub open spec fn is_digit(c: char) -> bool {
    ('0' as int) <= (c as int) && (c as int) <= ('9' as int)
}

/// A Unicode whitespace character: the code points with the White_Space
/// property, which end-trimming removes.
pub open spec fn is_unicode_space(c: char) -> bool {
    let u = c as int;
    ||| (9 <= u && u <= 13)
    ||| u == 0x20
    ||| u == 0x85
    ||| u == 0xa0
    ||| u == 0x1680
    ||| (0x2000 <= u && u <= 0x200a)
    ||| u == 0x2028
    ||| u == 0x2029
    ||| u == 0x202f
    ||| u == 0x205f
    ||| u == 0x3000
}

/// The index of the first character at or after `i` that is not Unicode
/// whitespace.
pub open spec fn skip_unicode_spaces(s: Seq<char>, i: int) -> int
    decreases s.len() - i,
    when 0 <= i <= s.len()
{
    if i >= s.len() {
        i
    } else if is_unicode_space(s[i]) {
        skip_unicode_spaces(s, i + 1)
    } else {
        i
    }
}

/// The index just past the last character before `e` that is not Unicode
/// whitespace.
pub open spec fn drop_unicode_spaces(s: Seq<char>, e: int) -> int
    decreases e,
    when 0 <= e <= s.len()
{
    if e <= 0 {
        0
    } else if is_unicode_space(s[e - 1]) {
        drop_unicode_spaces(s, e - 1)
    } else {
        e
    }
}

/// `s` with its leading and trailing Unicode whitespace removed.
pub open spec fn trimmed(s: Seq<char>) -> Seq<char> {
    let a = skip_unicode_spaces(s, 0);
    let b = drop_unicode_spaces(s, s.len() as int);
    if a >= b {
        Seq::empty()
    } else {
        s.subrange(a, b)
    }
}

/// The index of the first non-space character at or after `i`.
pub open spec fn skip_spaces(s: Seq<char>, i: int) -> int
    decreases s.len() - i,
    when 0 <= i <= s.len()
{
    if i >= s.len() {
        i
    } else if is_space(s[i]) {
        skip_spaces(s, i + 1)
    } else {
        i
    }
}

/// The index just past the token that starts at `i`.
pub open spec fn token_end(s: Seq<char>, i: int) -> int
    decreases s.len() - i,
    when 0 <= i <= s.len()
{
    if i >= s.len() {
        i
    } else if is_space(s[i]) {
        i
    } else {
        token_end(s, i + 1)
    }
}

/// The run of digits s[i..j), read in decimal.
pub open spec fn digits_val(s: Seq<char>, i: int, j: int) -> int
    decreases j - i,
    when i <= j
{
    if j <= i {
        0
    } else {
        digits_val(s, i, j - 1) * 10 + ((s[j - 1] as int) - ('0' as int))
    }
}

/// What the token s[i..j) reads as: digits after an optional leading '+',
/// anything else or a value over usize::MAX failing the read.
pub open spec fn token_value(s: Seq<char>, i: int, j: int) -> Option<usize> {
    let start = if i < j && s[i] == '+' {
        i + 1
    } else {
        i
    };
    if start < j && (forall|t: int| start <= t < j ==> is_digit(#[trigger] s[t])) && digits_val(
        s,
        start,
        j,
    ) <= usize::MAX {
        Some(digits_val(s, start, j) as usize)
    } else {
        None
    }
}

/// The first two whitespace-separated tokens of `s`, each read as usize.
pub open spec fn parsed_pair(s: Seq<char>) -> Option<(usize, usize)> {
    let a0 = skip_spaces(s, 0);
    let a1 = token_end(s, a0);
    if a0 >= s.len() {
        None
    } else {
        match token_value(s, a0, a1) {
            None => None,
            Some(first) => {
                let b0 = skip_spaces(s, a1);
                let b1 = token_end(s, b0);
                if b0 >= s.len() {
                    None
                } else {
                    match token_value(s, b0, b1) {
                        None => None,
                        Some(second) => Some((first, second)),
                    }
                }
            },
        }
    }
}

proof fn lemma_token_end_range(s: Seq<char>, i: int)
    requires
        0 <= i <= s.len(),
    ensures
        i <= token_end(s, i) <= s.len(),
    decreases s.len() - i,
{
    if i < s.len() && !is_space(s[i]) {
        lemma_token_end_range(s, i + 1);
    }
}

proof fn lemma_drop_unicode_spaces_range(s: Seq<char>, e: int)
    requires
        0 <= e <= s.len(),
    ensures
        0 <= drop_unicode_spaces(s, e) <= e,
    decreases e,
{
    if e > 0 && is_unicode_space(s[e - 1]) {
        lemma_drop_unicode_spaces_range(s, e - 1);
    }
}

proof fn lemma_digits_val_bounds(s: Seq<char>, i: int, j: int)
    requires
        i <= j,
        forall|t: int| i <= t < j ==> is_digit(#[trigger] s[t]),
    ensures
        digits_val(s, i, j) >= 0,
    decreases j - i,
{
    if j > i {
        lemma_digits_val_bounds(s, i, j - 1);
    }
}

proof fn lemma_digits_val_monotone(s: Seq<char>, i: int, m: int, j: int)
    requires
        i <= m <= j,
        forall|t: int| i <= t < j ==> is_digit(#[trigger] s[t]),
    ensures
        digits_val(s, i, j) >= digits_val(s, i, m),
    decreases j - m,
{
    if m < j {
        lemma_digits_val_monotone(s, i, m, j - 1);
        lemma_digits_val_bounds(s, i, j - 1);
    }
}

/// True when `c` separates tokens.
fn space_char(c: char) -> (b: bool)
    ensures
        b == is_space(c),
{
    c == ' ' || c == '\t' || c == '\n' || c == '\r' || c == '\u{c}'
}

/// True when `c` is Unicode whitespace.
fn unicode_space_char(c: char) -> (b: bool)
    ensures
        b == is_unicode_space(c),
{
    let u = c as u32;
    (u >= 9 && u <= 13) || u == 0x20 || u == 0x85 || u == 0xa0 || u == 0x1680 || (u >= 0x2000
        && u <= 0x200a) || u == 0x2028 || u == 0x2029 || u == 0x202f || u == 0x205f || u == 0x3000
}

/// True when `c` is a decimal digit.
fn digit_char(c: char) -> (b: bool)
    ensures
        b == is_digit(c),
{
    c as u32 >= '0' as u32 && c as u32 <= '9' as u32
}

/// Reads the coordinate token starting at `from`: the token is s[from..upto),
/// nonempty, and starts with a non-space character.
fn read_coordinate(s: &str, from: usize, upto: usize) -> (r: Option<usize>)
    requires
        from < upto <= s@.len(),
        upto == token_end(s@, from as int),
    ensures
        r == token_value(s@, from as int, upto as int),
{
    let mut start: usize = from;
    if s.get_char(start) == '+' {
        start = start + 1;
    }
    if start >= upto {
        return None;
    }
    let mut val: usize = 0;
    let mut p: usize = start;
    while p < upto
        invariant
            from < upto <= s@.len(),
            upto == token_end(s@, from as int),
            s@[from as int] == '+' ==> start == from + 1,
            s@[from as int] != '+' ==> start == from,
            start <= p <= upto,
            forall|q: int| start <= q < p ==> is_digit(#[trigger] s@[q]),
            val == digits_val(s@, start as int, p as int),
        decreases upto - p,
    {
        let c = s.get_char(p);
        if !digit_char(c) {
            return None;
        }
        let d: usize = (c as u32 - '0' as u32) as usize;
        let next_val = match val.checked_mul(10) {
            Some(v10) => v10.checked_add(d),
            None => None,
        };
        match next_val {
            Some(v) => {
                val = v;
            },
            None => {
                proof {
                    if forall|t: int| start <= t < upto ==> is_digit(#[trigger] s@[t]) {
                        lemma_digits_val_monotone(s@, start as int, p as int + 1, upto as int);
                    }
                }
                return None;
            },
        }
        p = p + 1;
    }
    Some(val)
}

impl Board {
    /// Trims Unicode whitespace off both ends of `input`, then reads two
    /// ASCII-whitespace-separated usize coordinates off the front of what
    /// is left; trailing text is ignored and the board is left untouched.
    pub fn parse_input(&mut self, input: &String) -> (r: Option<(usize, usize)>)
        ensures
            *final(self) == *old(self),
            r == parsed_pair(trimmed(input@)),
    {
        let full: &str = input.as_str();
        let full_len: usize = full.unicode_len();
        let mut lead: usize = 0;
        while lead < full_len && unicode_space_char(full.get_char(lead))
            invariant
                full@.len() == full_len,
                0 <= lead <= full_len,
                skip_unicode_spaces(full@, 0) == skip_unicode_spaces(full@, lead as int),
            decreases full_len - lead,
        {
            lead = lead + 1;
        }
        let mut tail: usize = full_len;
        while tail > lead && unicode_space_char(full.get_char(tail - 1))
            invariant
                full@.len() == full_len,
                lead <= tail <= full_len,
                lead as int == skip_unicode_spaces(full@, 0),
                drop_unicode_spaces(full@, full_len as int) == drop_unicode_spaces(
                    full@,
                    tail as int,
                ),
            decreases tail,
        {
            tail = tail - 1;
        }
        if tail <= lead {
            proof {
                lemma_drop_unicode_spaces_range(full@, tail as int);
                assert(trimmed(input@) =~= Seq::<char>::empty());
            }
            return None;
        }
        let s: &str = full.substring_char(lead, tail);
        proof {
            assert(s@ == trimmed(input@));
        }
        let n: usize = s.unicode_len();
        let mut a0: usize = 0;
        while a0 < n && space_char(s.get_char(a0))
            invariant
                s@.len() == n,
                0 <= a0 <= n,
                skip_spaces(s@, 0) == skip_spaces(s@, a0 as int),
            decreases n - a0,
        {
            a0 = a0 + 1;
        }
        if a0 >= n {
            return None;
        }
        let mut a1: usize = a0;
        while a1 < n && !space_char(s.get_char(a1))
            invariant
                s@.len() == n,
                a0 <= a1 <= n,
                token_end(s@, a0 as int) == token_end(s@, a1 as int),
            decreases n - a1,
        {
            a1 = a1 + 1;
        }
        proof {
            lemma_token_end_range(s@, a0 as int);
        }
        let first = match read_coordinate(s, a0, a1) {
            Some(v) => v,
            None => {
                return None;
            },
        };
        let mut b0: usize = a1;
        while b0 < n && space_char(s.get_char(b0))
            invariant
                s@.len() == n,
                a1 <= b0 <= n,
                skip_spaces(s@, a1 as int) == skip_spaces(s@, b0 as int),
            decreases n - b0,
        {
            b0 = b0 + 1;
        }
        if b0 >= n {
            return None;
        }
        let mut b1: usize = b0;
        while b1 < n && !space_char(s.get_char(b1))
            invariant
                s@.len() == n,
                b0 <= b1 <= n,
                token_end(s@, b0 as int) == token_end(s@, b1 as int),
            decreases n - b1,
        {
            b1 = b1 + 1;
        }
        proof {
            lemma_token_end_range(s@, b0 as int);
        }
        let second = match read_coordinate(s, b0, b1) {
            Some(v) => v,
            None => {
                return None;
            },
        };
        Some((first, second))
    }
}

} // verus!
