//! Building texts.
use vstd::prelude::*;
use vstd::string::*;

verus! {

/// Calls `String::push`, which appends one character.
#[verifier::external_body]
pub(crate) fn push_char(s: &mut String, c: char)
    ensures
        final(s)@ == old(s)@.push(c),
{
    s.push(c);
}

/// The character of a decimal digit.
pub open spec fn digit_char(d: int) -> char {
    (48 + d) as char
}

/// A number in decimal.
pub open spec fn digits(n: nat) -> Seq<char>
    decreases n,
{
    if n < 10 {
        seq![digit_char(n as int)]
    } else {
        digits(n / 10).push(digit_char((n % 10) as int))
    }
}

/// A signed number in decimal.
pub open spec fn decimal(v: int) -> Seq<char> {
    if v < 0 {
        seq!['-'] + digits((-v) as nat)
    } else {
        digits(v as nat)
    }
}

/// Appends a number in decimal.
pub fn push_digits(s: &mut String, n: u64)
    ensures
        final(s)@ == old(s)@ + digits(n as nat),
    decreases n,
{
    if n >= 10 {
        push_digits(s, n / 10);
    }
    let ghost before = s@;
    let d: u8 = 48u8 + (n % 10) as u8;
    push_char(s, d as char);
    assert(s@ =~= old(s)@ + digits(n as nat));
}

/// A signed number in decimal.
pub fn decimal_string(v: i32) -> (s: String)
    ensures
        s@ == decimal(v as int),
{
    let mut s = String::new();
    if v < 0 {
        push_char(&mut s, '-');
        let wide: i64 = v as i64;
        push_digits(&mut s, (-wide) as u64);
        assert(s@ =~= decimal(v as int));
    } else {
        push_digits(&mut s, v as u64);
        assert(s@ =~= decimal(v as int));
    }
    s
}

/// The characters of a text.
pub fn chars_of(s: &str) -> (v: Vec<char>)
    ensures
        v@ == s@,
{
    let n: usize = s.unicode_len();
    let mut v: Vec<char> = Vec::new();
    let mut i: usize = 0;
    while i < n
        invariant
            n == s@.len(),
            i <= n,
            v@ == s@.take(i as int),
        decreases n - i,
    {
        v.push(s.get_char(i));
        assert(v@ =~= s@.take(i + 1));
        i = i + 1;
    }
    assert(s@.take(n as int) =~= s@);
    v
}

/// Whether two texts are the same.
pub fn same_text(a: &str, b: &str) -> (same: bool)
    ensures
        same == (a@ == b@),
{
    let n: usize = a.unicode_len();
    if n != b.unicode_len() {
        return false;
    }
    let mut i: usize = 0;
    while i < n
        invariant
            n == a@.len(),
            n == b@.len(),
            i <= n,
            forall|k: int| 0 <= k < i ==> a@[k] == b@[k],
        decreases n - i,
    {
        if a.get_char(i) != b.get_char(i) {
            assert(a@[i as int] != b@[i as int]);
            return false;
        }
        i = i + 1;
    }
    assert(a@ =~= b@);
    true
}

/// `pattern` stands at place `k` of `text`.
pub open spec fn occurs_at(text: Seq<char>, k: int, pattern: Seq<char>) -> bool {
    0 <= k && k + pattern.len() <= text.len() && text.subrange(k, k + pattern.len()) == pattern
}

/// `pattern` stands somewhere in `text`.
pub open spec fn occurs_in(text: Seq<char>, pattern: Seq<char>) -> bool {
    exists|k: int| #[trigger] occurs_at(text, k, pattern)
}

/// Whether a pattern stands at a place of a text.
pub fn stands_at(text: &Vec<char>, k: usize, pattern: &Vec<char>) -> (b: bool)
    ensures
        b == occurs_at(text@, k as int, pattern@),
{
    if k > text.len() || text.len() - k < pattern.len() {
        return false;
    }
    let mut i: usize = 0;
    while i < pattern.len()
        invariant
            k + pattern@.len() <= text.len(),
            i <= pattern@.len(),
            forall|j: int| 0 <= j < i ==> text@[k + j] == pattern@[j],
        decreases pattern@.len() - i,
    {
        if text[k + i] != pattern[i] {
            assert(text@.subrange(k as int, k + pattern@.len())[i as int] != pattern@[i as int]);
            return false;
        }
        i = i + 1;
    }
    assert(text@.subrange(k as int, k + pattern@.len()) =~= pattern@);
    true
}

/// Whether a pattern stands somewhere in a text.
pub fn contains_text(text: &Vec<char>, pattern: &Vec<char>) -> (b: bool)
    ensures
        b == occurs_in(text@, pattern@),
{
    let mut k: usize = 0;
    while k < text.len()
        invariant
            k <= text@.len(),
            forall|j: int| 0 <= j < k ==> !#[trigger] occurs_at(text@, j, pattern@),
        decreases text@.len() - k,
    {
        if stands_at(text, k, pattern) {
            return true;
        }
        k = k + 1;
    }
    stands_at(text, k, pattern)
}

/// The texts of a list.
pub open spec fn texts(list: Seq<String>) -> Seq<Seq<char>> {
    list.map_values(|s: String| s@)
}

/// Appends a text to a list.
pub fn push_text(list: &mut Vec<String>, s: &str)
    ensures
        texts(final(list)@) == texts(old(list)@).push(s@),
{
    list.push(String::from_str(s));
    assert(texts(list@) =~= texts(old(list)@).push(s@));
}

/// Texts one after the other, with `between` between them.
pub open spec fn joined(list: Seq<Seq<char>>, between: Seq<char>) -> Seq<char>
    decreases list.len(),
{
    if list.len() == 0 {
        Seq::empty()
    } else if list.len() == 1 {
        list[0]
    } else {
        joined(list.drop_last(), between) + between + list.last()
    }
}

/// Appends texts one after the other, with a space between them.
pub fn append_joined(out: &mut String, list: &Vec<String>)
    ensures
        final(out)@ == old(out)@ + joined(texts(list@), " "@),
{
    let ghost all = texts(list@);
    let mut i: usize = 0;
    assert(out@ =~= old(out)@ + joined(all.take(0), " "@));
    while i < list.len()
        invariant
            i <= list@.len(),
            all == texts(list@),
            out@ == old(out)@ + joined(all.take(i as int), " "@),
        decreases list@.len() - i,
    {
        let ghost before = out@;
        if i > 0 {
            out.append(" ");
        }
        out.append(list[i].as_str());
        proof {
            let more = all.take(i + 1);
            assert(more.drop_last() =~= all.take(i as int));
            assert(more.last() == list@[i as int]@);
            if i == 0 {
                assert(joined(all.take(0), " "@) =~= Seq::empty());
                assert(out@ =~= old(out)@ + joined(more, " "@));
            } else {
                assert(out@ =~= old(out)@ + joined(more, " "@));
            }
        }
        i = i + 1;
    }
    assert(all.take(i as int) =~= all);
}

} // verus!
