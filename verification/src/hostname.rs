//! Hostname selection: the machine's own hostname, normalized to one DNS
//! label, or a randomly generated name when none is usable.

use vstd::prelude::*;
use vstd::string::{StrSliceExecFns, StringExecFns};
use vstd::utf8::encode_utf8;
use crate::text::{digit_char_of, push_char, spec_digit_char};

verus! {

/// A usable hostname label: non-empty, at most 63 bytes once encoded, and
/// free of dots and underscores.
pub open spec fn spec_valid_hostname(t: Seq<char>) -> bool {
    &&& t.len() > 0
    &&& encode_utf8(t).len() <= 63
    &&& forall|i: int| 0 <= i < t.len() ==> #[trigger] t[i] != '.' && t[i] != '_'
}

/// The index of the first occurrence of `c`, or the length of `s`.
pub open spec fn spec_find_char(s: Seq<char>, c: char) -> int
    decreases s.len(),
{
    if s.len() == 0 {
        0
    } else if s[0] == c {
        0
    } else {
        1 + spec_find_char(s.skip(1), c)
    }
}

pub proof fn lemma_find_char_props(s: Seq<char>, c: char)
    ensures
        0 <= spec_find_char(s, c) <= s.len(),
        forall|k: int| 0 <= k < spec_find_char(s, c) ==> s[k] != c,
        spec_find_char(s, c) < s.len() ==> s[spec_find_char(s, c)] == c,
    decreases s.len(),
{
    if s.len() > 0 && s[0] != c {
        lemma_find_char_props(s.skip(1), c);
        assert forall|k: int| 0 <= k < spec_find_char(s, c) implies s[k] != c by {
            if k >= 1 {
                assert(s.skip(1)[k - 1] == s[k]);
            }
        }
    }
}

/// Underscores become hyphens; every other character stays.
pub open spec fn spec_mapped_char(c: char) -> char {
    if c == '_' {
        '-'
    } else {
        c
    }
}

/// A hostname normalized to one label: everything before the first dot, with
/// underscores replaced by hyphens; usable only when non-empty and at most 63
/// bytes.
pub open spec fn spec_normalize(s: Seq<char>) -> Option<Seq<char>> {
    let cut = spec_find_char(s, '.');
    let t = Seq::new(cut as nat, |k: int| spec_mapped_char(s[k]));
    if t.len() > 0 && encode_utf8(t).len() <= 63 {
        Some(t)
    } else {
        None
    }
}

/// Law: whatever string goes in, a hostname that `spec_normalize` accepts is
/// a usable label: non-empty, at most 63 bytes, without dots or underscores.
pub proof fn lemma_normalize_valid(s: Seq<char>)
    ensures
        spec_normalize(s) matches Some(t) ==> spec_valid_hostname(t),
{
    lemma_find_char_props(s, '.');
    if spec_normalize(s) is Some {
        let cut = spec_find_char(s, '.');
        let t = Seq::new(cut as nat, |k: int| spec_mapped_char(s[k]));
        assert forall|i: int| 0 <= i < t.len() implies #[trigger] t[i] != '.' && t[i] != '_' by {
            assert(s[i] != '.');
        }
    }
}

/// Relies on the hostname crate's `get`: the machine's hostname as text, an
/// environment reading of which nothing is promised; `None` when the system
/// has none or it is not valid text.
#[verifier::external_body]
fn os_hostname() -> (r: Option<String>) {
    hostname::get().ok().and_then(|h| h.into_string().ok())
}

/// Normalizes a hostname to one label; agrees with `spec_normalize` on every
/// input.
pub fn normalize_hostname(h: &str) -> (r: Option<String>)
    ensures
        match r {
            Some(s) => spec_normalize(h@) == Some(s@),
            None => spec_normalize(h@) is None,
        },
{
    let n = h.unicode_len();
    let mut out = String::new();
    let mut i: usize = 0;
    while i < n
        invariant
            0 <= i <= n == h@.len(),
            forall|k: int| 0 <= k < i ==> h@[k] != '.',
            out@ =~= Seq::new(i as nat, |k: int| spec_mapped_char(h@[k])),
        ensures
            0 <= i <= n == h@.len(),
            forall|k: int| 0 <= k < i ==> h@[k] != '.',
            i < n ==> h@[i as int] == '.',
            out@ =~= Seq::new(i as nat, |k: int| spec_mapped_char(h@[k])),
        decreases n - i,
    {
        let c = h.get_char(i);
        if c == '.' {
            break;
        }
        if c == '_' {
            push_char(&mut out, '-');
        } else {
            push_char(&mut out, c);
        }
        proof {
            assert(out@ =~= Seq::new((i + 1) as nat, |k: int| spec_mapped_char(h@[k])));
        }
        i = i + 1;
    }
    proof {
        lemma_find_char_props(h@, '.');
        let fc = spec_find_char(h@, '.');
        if i < fc {
            assert(h@[i as int] == '.');
            assert(false);
        }
        if fc < i {
            assert(h@[fc] != '.');
            assert(false);
        }
    }
    proof {
        let cut = spec_find_char(h@, '.');
        assert(out@ =~= Seq::new(cut as nat, |k: int| spec_mapped_char(h@[k])));
    }
    let chars = out.as_str().unicode_len();
    let bytes = out.as_str().as_bytes().len();
    if chars > 0 && bytes <= 63 {
        Some(out)
    } else {
        None
    }
}

/// The machine's hostname, normalized; `None` when the system reports none or
/// the normalized label is unusable. Whatever the environment holds, a
/// returned hostname is a usable label.
pub fn get_system_hostname() -> (r: Option<String>)
    ensures
        r matches Some(s) ==> spec_valid_hostname(s@),
{
    match os_hostname() {
        Some(h) => {
            let r = normalize_hostname(h.as_str());
            proof {
                lemma_normalize_valid(h@);
            }
            r
        },
        None => None,
    }
}

/// Relies on rand's `gen_range`: a value drawn below the bound; it panics
/// only on an empty range, which the precondition rules out.
#[verifier::external_body]
fn random_below(n: usize) -> (r: usize)
    requires
        n > 0,
    ensures
        r < n,
{
    rand::Rng::gen_range(&mut rand::thread_rng(), 0..n)
}

pub const PREFIX_COUNT: usize = 12;

pub const SUFFIX_COUNT: usize = 8;

/// The prefix words a generated hostname draws from.
pub open spec fn spec_prefix(i: int) -> Seq<char> {
    if i == 0 {
        "web"@
    } else if i == 1 {
        "api"@
    } else if i == 2 {
        "cdn"@
    } else if i == 3 {
        "mail"@
    } else if i == 4 {
        "ftp"@
    } else if i == 5 {
        "db"@
    } else if i == 6 {
        "cache"@
    } else if i == 7 {
        "proxy"@
    } else if i == 8 {
        "gw"@
    } else if i == 9 {
        "vpn"@
    } else if i == 10 {
        "app"@
    } else {
        "svc"@
    }
}

/// The suffix words a generated hostname draws from.
pub open spec fn spec_suffix(j: int) -> Seq<char> {
    if j == 0 {
        "srv"@
    } else if j == 1 {
        "node"@
    } else if j == 2 {
        "host"@
    } else if j == 3 {
        "box"@
    } else if j == 4 {
        "vm"@
    } else if j == 5 {
        "sys"@
    } else if j == 6 {
        "pod"@
    } else {
        "shard"@
    }
}

fn prefix_str(i: usize) -> (r: &'static str)
    requires
        i < PREFIX_COUNT,
    ensures
        r@ == spec_prefix(i as int),
{
    if i == 0 {
        "web"
    } else if i == 1 {
        "api"
    } else if i == 2 {
        "cdn"
    } else if i == 3 {
        "mail"
    } else if i == 4 {
        "ftp"
    } else if i == 5 {
        "db"
    } else if i == 6 {
        "cache"
    } else if i == 7 {
        "proxy"
    } else if i == 8 {
        "gw"
    } else if i == 9 {
        "vpn"
    } else if i == 10 {
        "app"
    } else {
        "svc"
    }
}

fn suffix_str(j: usize) -> (r: &'static str)
    requires
        j < SUFFIX_COUNT,
    ensures
        r@ == spec_suffix(j as int),
{
    if j == 0 {
        "srv"
    } else if j == 1 {
        "node"
    } else if j == 2 {
        "host"
    } else if j == 3 {
        "box"
    } else if j == 4 {
        "vm"
    } else if j == 5 {
        "sys"
    } else if j == 6 {
        "pod"
    } else {
        "shard"
    }
}

/// A generated hostname: a prefix word, a suffix word, and a two-digit
/// number, joined by hyphens.
pub open spec fn spec_generated(i: int, j: int, n: int) -> Seq<char> {
    spec_prefix(i) + "-"@ + spec_suffix(j) + "-"@ + seq![
        spec_digit_char(n / 10),
        spec_digit_char(n % 10),
    ]
}

/// Generates a random hostname of the form prefix-suffix-NN, with the number
/// between 1 and 99. Which one comes out is up to the randomness source; every
/// outcome has this form.
pub fn generate() -> (r: String)
    ensures
        exists|i: int, j: int, n: int|
            0 <= i < PREFIX_COUNT && 0 <= j < SUFFIX_COUNT && 1 <= n < 100 && r@
                == spec_generated(i, j, n),
{
    let i = random_below(PREFIX_COUNT);
    let j = random_below(SUFFIX_COUNT);
    let n = 1 + random_below(99);
    let mut s = String::new();
    s.append(prefix_str(i));
    s.append("-");
    s.append(suffix_str(j));
    s.append("-");
    push_char(&mut s, digit_char_of(n / 10));
    push_char(&mut s, digit_char_of(n % 10));
    proof {
        assert(s@ =~= spec_generated(i as int, j as int, n as int));
    }
    s
}

/// The machine's hostname where it yields a usable label, otherwise a
/// generated one.
pub fn get_or_generate() -> (r: String)
    ensures
        spec_valid_hostname(r@) || exists|i: int, j: int, n: int|
            0 <= i < PREFIX_COUNT && 0 <= j < SUFFIX_COUNT && 1 <= n < 100 && r@
                == spec_generated(i, j, n),
{
    match get_system_hostname() {
        Some(h) => h,
        None => generate(),
    }
}

} // verus!
