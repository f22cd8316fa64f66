use vstd::prelude::*;

use crate::error::FlatfsError;
use crate::text::{chars_of, push_char, push_range, starts_with};

verus! {

/// Name of the descriptor file that every store root holds.
pub const FILE_NAME: &'static str = "SHARDING";

pub const FLAT_DESCRIPTOR: &'static str = "/repo/flatfs/shard/v1/flat";

pub const PREFIX_HEAD: &'static str = "/repo/flatfs/shard/v1/prefix/";

pub const SUFFIX_HEAD: &'static str = "/repo/flatfs/shard/v1/suffix/";

pub const NEXT_TO_LAST_HEAD: &'static str = "/repo/flatfs/shard/v1/next-to-last/";

/// How a key is mapped to the directory, directly under the root, that holds
/// its value file.
#[derive(Debug, Clone, Copy, PartialEq, Eq, Structural)]
pub enum Shard {
    /// Every value file sits directly under the root.
    Flat,
    /// The first `n` characters of the key.
    Prefix(usize),
    /// The last `n` characters of the key.
    Suffix(usize),
    /// The `n` characters that end just before the key's last character.
    NextToLast(usize),
}

pub open spec fn min_len(n: usize, len: nat) -> int {
    if n < len {
        n as int
    } else {
        len as int
    }
}

/// The decimal digit for `d < 10`.
pub open spec fn digit(d: nat) -> char {
    if d == 0 {
        '0'
    } else if d == 1 {
        '1'
    } else if d == 2 {
        '2'
    } else if d == 3 {
        '3'
    } else if d == 4 {
        '4'
    } else if d == 5 {
        '5'
    } else if d == 6 {
        '6'
    } else if d == 7 {
        '7'
    } else if d == 8 {
        '8'
    } else {
        '9'
    }
}

pub open spec fn is_digit(c: char) -> bool {
    '0' <= c && c <= '9'
}

pub open spec fn digit_value(c: char) -> nat {
    (c as u32 - '0' as u32) as nat
}

/// `n` written in decimal, without leading zeros.
pub open spec fn decimal(n: nat) -> Seq<char>
    decreases n,
{
    if n < 10 {
        seq![digit(n)]
    } else {
        decimal(n / 10).push(digit(n % 10))
    }
}

/// The number that the decimal digits `ds` denote.
pub open spec fn digits_value(ds: Seq<char>) -> nat
    decreases ds.len(),
{
    if ds.len() == 0 {
        0
    } else {
        digits_value(ds.drop_last()) * 10 + digit_value(ds.last())
    }
}

/// A width as written in a descriptor: one or more decimal digits whose value fits a `usize`.
pub open spec fn parse_width(ds: Seq<char>) -> Option<usize> {
    if ds.len() > 0 && (forall|i: int| 0 <= i < ds.len() ==> is_digit(#[trigger] ds[i]))
        && digits_value(ds) <= usize::MAX {
        Some(digits_value(ds) as usize)
    } else {
        None
    }
}

pub open spec fn has_head(t: Seq<char>, head: Seq<char>) -> bool {
    head.len() <= t.len() && t.take(head.len() as int) == head
}

/// The strategy that a descriptor text denotes, if any.
pub open spec fn parse_descriptor(t: Seq<char>) -> Option<Shard> {
    if t == FLAT_DESCRIPTOR@ {
        Some(Shard::Flat)
    } else if has_head(t, PREFIX_HEAD@) && parse_width(t.skip(PREFIX_HEAD@.len() as int)) is Some {
        Some(Shard::Prefix(parse_width(t.skip(PREFIX_HEAD@.len() as int))->0))
    } else if has_head(t, SUFFIX_HEAD@) && parse_width(t.skip(SUFFIX_HEAD@.len() as int)) is Some {
        Some(Shard::Suffix(parse_width(t.skip(SUFFIX_HEAD@.len() as int))->0))
    } else if has_head(t, NEXT_TO_LAST_HEAD@) && parse_width(
        t.skip(NEXT_TO_LAST_HEAD@.len() as int),
    ) is Some {
        Some(Shard::NextToLast(parse_width(t.skip(NEXT_TO_LAST_HEAD@.len() as int))->0))
    } else {
        None
    }
}

/// The default strategy: the two characters before the key's last one.
pub open spec fn default_shard() -> Shard {
    Shard::NextToLast(2)
}

impl Shard {
    /// The directory name for `key`. A width larger than the key takes the
    /// whole key (or, for `NextToLast`, all of it but its last character).
    pub open spec fn dir_spec(self, key: Seq<char>) -> Seq<char> {
        match self {
            Shard::Flat => Seq::empty(),
            Shard::Prefix(n) => key.take(min_len(n, key.len())),
            Shard::Suffix(n) => key.skip(key.len() - min_len(n, key.len())),
            Shard::NextToLast(n) => if key.len() == 0 {
                Seq::empty()
            } else {
                key.subrange(
                    key.len() - 1 - min_len(n, (key.len() - 1) as nat),
                    key.len() - 1,
                )
            },
        }
    }

    /// The single-line text under which the strategy is persisted.
    pub open spec fn descriptor_spec(self) -> Seq<char> {
        match self {
            Shard::Flat => FLAT_DESCRIPTOR@,
            Shard::Prefix(n) => PREFIX_HEAD@ + decimal(n as nat),
            Shard::Suffix(n) => SUFFIX_HEAD@ + decimal(n as nat),
            Shard::NextToLast(n) => NEXT_TO_LAST_HEAD@ + decimal(n as nat),
        }
    }

    /// Computes the directory name for `key`.
    pub fn dir(&self, key: &str) -> (r: String)
        ensures
            r@ == self.dir_spec(key@),
    {
        let cs = chars_of(key);
        let len = cs.len();
        let (from, to) = match *self {
            Shard::Flat => (0, 0),
            Shard::Prefix(n) => (0, if n < len { n } else { len }),
            Shard::Suffix(n) => (len - if n < len { n } else { len }, len),
            Shard::NextToLast(n) => if len == 0 {
                (0, 0)
            } else {
                let end = len - 1;
                (end - if n < end { n } else { end }, end)
            },
        };
        let mut r = String::new();
        push_range(&mut r, &cs, from, to);
        proof {
            assert(r@ =~= self.dir_spec(key@));
        }
        r
    }

    /// The descriptor text of this strategy.
    pub fn to_descriptor(&self) -> (r: String)
        ensures
            r@ == self.descriptor_spec(),
    {
        match *self {
            Shard::Flat => FLAT_DESCRIPTOR.to_owned(),
            Shard::Prefix(n) => {
                let mut r = PREFIX_HEAD.to_owned();
                push_decimal(&mut r, n);
                r
            },
            Shard::Suffix(n) => {
                let mut r = SUFFIX_HEAD.to_owned();
                push_decimal(&mut r, n);
                r
            },
            Shard::NextToLast(n) => {
                let mut r = NEXT_TO_LAST_HEAD.to_owned();
                push_decimal(&mut r, n);
                r
            },
        }
    }

    /// Reads a descriptor text back into the strategy it denotes.
    pub fn from_descriptor(t: &str) -> (r: Result<Shard, FlatfsError>)
        ensures
            r == match parse_descriptor(t@) {
                Some(s) => Ok::<Shard, FlatfsError>(s),
                None => Err(FlatfsError::BadDescriptor),
            },
    {
        let cs = chars_of(t);
        proof {
            lemma_heads_differ(t@);
        }
        let flat = chars_of(FLAT_DESCRIPTOR);
        if starts_with(&cs, &flat) && cs.len() == flat.len() {
            assert(cs@ =~= cs@.take(flat@.len() as int));
            return Ok(Shard::Flat);
        }
        assert(cs@ != flat@) by {
            if cs@ == flat@ {
                assert(cs@.take(flat@.len() as int) =~= cs@);
            }
        }
        let prefix = chars_of(PREFIX_HEAD);
        if starts_with(&cs, &prefix) {
            if let Some(n) = parse_width_at(&cs, prefix.len()) {
                return Ok(Shard::Prefix(n));
            }
        }
        let suffix = chars_of(SUFFIX_HEAD);
        if starts_with(&cs, &suffix) {
            if let Some(n) = parse_width_at(&cs, suffix.len()) {
                return Ok(Shard::Suffix(n));
            }
        }
        let next_to_last = chars_of(NEXT_TO_LAST_HEAD);
        if starts_with(&cs, &next_to_last) {
            if let Some(n) = parse_width_at(&cs, next_to_last.len()) {
                return Ok(Shard::NextToLast(n));
            }
        }
        Err(FlatfsError::BadDescriptor)
    }
}

impl Default for Shard {
    fn default() -> (r: Shard)
        ensures
            r == default_shard(),
    {
        Shard::NextToLast(2)
    }
}

/// The descriptor heads tell the strategies apart by the character after `/repo/flatfs/shard/v1/`.
proof fn lemma_heads_differ(t: Seq<char>)
    ensures
        has_head(t, PREFIX_HEAD@) ==> t != FLAT_DESCRIPTOR@,
        has_head(t, SUFFIX_HEAD@) ==> t != FLAT_DESCRIPTOR@ && !has_head(t, PREFIX_HEAD@),
        has_head(t, NEXT_TO_LAST_HEAD@) ==> t != FLAT_DESCRIPTOR@ && !has_head(t, PREFIX_HEAD@)
            && !has_head(t, SUFFIX_HEAD@),
{
    reveal_strlit("/repo/flatfs/shard/v1/flat");
    reveal_strlit("/repo/flatfs/shard/v1/prefix/");
    reveal_strlit("/repo/flatfs/shard/v1/suffix/");
    reveal_strlit("/repo/flatfs/shard/v1/next-to-last/");
    if has_head(t, PREFIX_HEAD@) {
        assert(t.take(PREFIX_HEAD@.len() as int)[22] == 'p');
    }
    if has_head(t, SUFFIX_HEAD@) {
        assert(t.take(SUFFIX_HEAD@.len() as int)[22] == 's');
    }
    if has_head(t, NEXT_TO_LAST_HEAD@) {
        assert(t.take(NEXT_TO_LAST_HEAD@.len() as int)[22] == 'n');
    }
    if has_head(t, PREFIX_HEAD@) || has_head(t, SUFFIX_HEAD@) {
        assert(t.take(PREFIX_HEAD@.len() as int)[22] == t[22]);
    }
    if t == FLAT_DESCRIPTOR@ {
        assert(t[22] == 'f');
    }
}

fn digit_char(d: usize) -> (c: char)
    requires
        d < 10,
    ensures
        c == digit(d as nat),
{
    if d == 0 {
        '0'
    } else if d == 1 {
        '1'
    } else if d == 2 {
        '2'
    } else if d == 3 {
        '3'
    } else if d == 4 {
        '4'
    } else if d == 5 {
        '5'
    } else if d == 6 {
        '6'
    } else if d == 7 {
        '7'
    } else if d == 8 {
        '8'
    } else {
        '9'
    }
}

/// Appends `n` in decimal to `s`.
fn push_decimal(s: &mut String, n: usize)
    ensures
        final(s)@ == old(s)@ + decimal(n as nat),
    decreases n,
{
    if n >= 10 {
        push_decimal(s, n / 10);
    }
    push_char(s, digit_char(n % 10));
    proof {
        assert(final(s)@ =~= old(s)@ + decimal(n as nat));
    }
}

proof fn lemma_digits_value_prefix(ds: Seq<char>, i: int)
    requires
        0 < i <= ds.len(),
    ensures
        ds.take(i).drop_last() == ds.take(i - 1),
        ds.take(i).last() == ds[i - 1],
        digits_value(ds.take(i)) == digits_value(ds.take(i - 1)) * 10 + digit_value(ds[i - 1]),
{
    assert(ds.take(i).drop_last() =~= ds.take(i - 1));
}

proof fn lemma_digits_value_grows(ds: Seq<char>, i: int)
    requires
        0 <= i <= ds.len(),
    ensures
        digits_value(ds.take(i)) <= digits_value(ds),
    decreases ds.len() - i,
{
    if i < ds.len() {
        lemma_digits_value_prefix(ds, i + 1);
        lemma_digits_value_grows(ds, i + 1);
    } else {
        assert(ds.take(i) =~= ds);
    }
}

/// Reads the width that `cs[start..]` holds.
fn parse_width_at(cs: &Vec<char>, start: usize) -> (r: Option<usize>)
    requires
        start <= cs@.len(),
    ensures
        r == parse_width(cs@.skip(start as int)),
{
    let ghost ds = cs@.skip(start as int);
    if start == cs.len() {
        return None;
    }
    let mut value: usize = 0;
    let mut i: usize = start;
    while i < cs.len()
        invariant
            start <= i <= cs@.len(),
            ds == cs@.skip(start as int),
            value == digits_value(ds.take(i - start)),
            forall|j: int| 0 <= j < i - start ==> is_digit(#[trigger] ds[j]),
        decreases cs@.len() - i,
    {
        let c = cs[i];
        if c < '0' || c > '9' {
            assert(!is_digit(ds[i - start]));
            return None;
        }
        let d = (c as u32 - '0' as u32) as usize;
        proof {
            lemma_digits_value_prefix(ds, i - start + 1);
        }
        if value > (usize::MAX - d) / 10 {
            proof {
                assert(digits_value(ds.take(i - start + 1)) > usize::MAX) by (nonlinear_arith)
                    requires
                        value > (usize::MAX - d) / 10,
                        digits_value(ds.take(i - start + 1)) == value * 10 + d,
                ;
                lemma_digits_value_grows(ds, i - start + 1);
            }
            return None;
        }
        value = value * 10 + d;
        i = i + 1;
    }
    assert(ds.take(i - start) =~= ds);
    Some(value)
}

proof fn lemma_decimal(n: nat)
    ensures
        decimal(n).len() > 0,
        forall|i: int| 0 <= i < decimal(n).len() ==> is_digit(#[trigger] decimal(n)[i]),
        digits_value(decimal(n)) == n,
    decreases n,
{
    let d = (n % 10) as nat;
    assert(is_digit(digit(d)) && digit_value(digit(d)) == d);
    if n < 10 {
        assert(seq![digit(n)].drop_last() =~= Seq::<char>::empty());
        assert(n % 10 == n);
        assert(decimal(n).last() == digit(d));
        assert(digits_value(decimal(n)) == digits_value(decimal(n).drop_last()) * 10 + digit_value(digit(d)));
        assert(digits_value(Seq::<char>::empty()) == 0);
    } else {
        lemma_decimal(n / 10);
        assert(decimal(n).drop_last() =~= decimal(n / 10));
        assert(decimal(n).last() == digit(d));
        assert((n / 10) * 10 + n % 10 == n) by (nonlinear_arith);
        assert(digits_value(decimal(n)) == digits_value(decimal(n / 10)) * 10 + digit_value(digit(d)));
        assert forall|i: int| 0 <= i < decimal(n).len() implies is_digit(#[trigger] decimal(n)[i]) by {
            if i < decimal(n).len() - 1 {
                assert(decimal(n)[i] == decimal(n / 10)[i]);
            }
        }
    }
}

proof fn lemma_head_then_width(head: Seq<char>, n: usize)
    ensures
        has_head(head + decimal(n as nat), head),
        parse_width((head + decimal(n as nat)).skip(head.len() as int)) == Some(n),
{
    let t = head + decimal(n as nat);
    assert(t.take(head.len() as int) =~= head);
    assert(t.skip(head.len() as int) =~= decimal(n as nat));
    lemma_decimal(n as nat);
}

/// A strategy read back from its own descriptor text is the same strategy.
pub proof fn lemma_descriptor_round_trip(s: Shard)
    ensures
        parse_descriptor(s.descriptor_spec()) == Some(s),
{
    let t = s.descriptor_spec();
    match s {
        Shard::Flat => {},
        Shard::Prefix(n) => {
            lemma_head_then_width(PREFIX_HEAD@, n);
            lemma_heads_differ(t);
        },
        Shard::Suffix(n) => {
            lemma_head_then_width(SUFFIX_HEAD@, n);
            lemma_heads_differ(t);
        },
        Shard::NextToLast(n) => {
            lemma_head_then_width(NEXT_TO_LAST_HEAD@, n);
            lemma_heads_differ(t);
        },
    }
}

} // verus!
