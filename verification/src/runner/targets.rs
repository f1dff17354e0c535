//! Which targets are installed, and which of them is used for Windows.
use vstd::prelude::*;
use vstd::string::*;
use crate::text::{chars_of, contains_text, occurs_in, push_char, same_text, texts};
use super::config::Target;
use super::error::RunnerError;

verus! {

/// The characters with the Unicode property White_Space.
pub open spec fn whitespace(c: char) -> bool {
    let n = c as u32;
    ||| 0x9 <= n <= 0xd
    ||| n == 0x20
    ||| n == 0x85
    ||| n == 0xa0
    ||| n == 0x1680
    ||| 0x2000 <= n <= 0x200a
    ||| n == 0x2028
    ||| n == 0x2029
    ||| n == 0x202f
    ||| n == 0x205f
    ||| n == 0x3000
}

/// Whether a character is whitespace.
fn is_whitespace(c: char) -> (b: bool)
    ensures
        b == whitespace(c),
{
    let n: u32 = c as u32;
    (0x9 <= n && n <= 0xd) || n == 0x20 || n == 0x85 || n == 0xa0 || n == 0x1680 || (0x2000 <= n
        && n <= 0x200a) || n == 0x2028 || n == 0x2029 || n == 0x202f || n == 0x205f || n == 0x3000
}

/// A text without whitespace at its start.
pub open spec fn trimmed_start(s: Seq<char>) -> Seq<char>
    decreases s.len(),
{
    if s.len() > 0 && whitespace(s[0]) {
        trimmed_start(s.skip(1))
    } else {
        s
    }
}

/// A text without whitespace at its end.
pub open spec fn trimmed_end(s: Seq<char>) -> Seq<char>
    decreases s.len(),
{
    if s.len() > 0 && whitespace(s.last()) {
        trimmed_end(s.drop_last())
    } else {
        s
    }
}

/// A text without whitespace around it.
pub open spec fn trimmed(s: Seq<char>) -> Seq<char> {
    trimmed_end(trimmed_start(s))
}

/// The length of the first line of a text.
pub open spec fn line_len(s: Seq<char>) -> nat
    decreases s.len(),
{
    if s.len() == 0 || s[0] == '\n' {
        0
    } else {
        1 + line_len(s.skip(1))
    }
}

/// A line is not longer than the text.
proof fn lines_fit(s: Seq<char>)
    ensures
        line_len(s) <= s.len(),
    decreases s.len(),
{
    if s.len() > 0 && s[0] != '\n' {
        lines_fit(s.skip(1));
    }
}

/// The lines of a text.
pub open spec fn lines(s: Seq<char>) -> Seq<Seq<char>>
    decreases s.len(),
{
    if s.len() == 0 {
        Seq::empty()
    } else {
        let n = line_len(s) as int;
        if n >= s.len() {
            seq![s]
        } else {
            seq![s.take(n)] + lines(s.skip(n + 1))
        }
    }
}

/// The targets that a list names, one on each line.
pub open spec fn named_targets(s: Seq<char>) -> Seq<Seq<char>> {
    lines(s).map_values(|l: Seq<char>| trimmed(l))
}

/// A part of a text.
fn part(text: &Vec<char>, from: usize, to: usize) -> (s: String)
    requires
        from <= to <= text@.len(),
    ensures
        s@ == text@.subrange(from as int, to as int),
{
    let mut s = String::new();
    let mut i: usize = from;
    while i < to
        invariant
            from <= i <= to,
            to <= text@.len(),
            s@ == text@.subrange(from as int, i as int),
        decreases to - i,
    {
        push_char(&mut s, text[i]);
        assert(s@ =~= text@.subrange(from as int, i + 1));
        i = i + 1;
    }
    s
}

/// A part of a text without whitespace around it.
fn trimmed_part(text: &Vec<char>, from: usize, to: usize) -> (s: String)
    requires
        from <= to <= text@.len(),
    ensures
        s@ == trimmed(text@.subrange(from as int, to as int)),
{
    let ghost whole = text@.subrange(from as int, to as int);
    let mut a: usize = from;
    while a < to && is_whitespace(text[a])
        invariant
            from <= a <= to,
            to <= text@.len(),
            whole == text@.subrange(from as int, to as int),
            trimmed_start(whole) == trimmed_start(text@.subrange(a as int, to as int)),
        decreases to - a,
    {
        proof {
            let rest = text@.subrange(a as int, to as int);
            assert(rest.skip(1) =~= text@.subrange(a + 1, to as int));
        }
        a = a + 1;
    }
    let ghost rest = text@.subrange(a as int, to as int);
    assert(trimmed_start(whole) == rest);
    let mut b: usize = to;
    while b > a && is_whitespace(text[b - 1])
        invariant
            a <= b <= to,
            to <= text@.len(),
            rest == text@.subrange(a as int, to as int),
            trimmed_end(rest) == trimmed_end(text@.subrange(a as int, b as int)),
        decreases b - a,
    {
        proof {
            let now = text@.subrange(a as int, b as int);
            assert(now.drop_last() =~= text@.subrange(a as int, b - 1));
            assert(now.last() == text@[b - 1]);
        }
        b = b - 1;
    }
    proof {
        let now = text@.subrange(a as int, b as int);
        if b > a {
            assert(now.last() == text@[b - 1]);
        }
        assert(trimmed_end(rest) == now);
    }
    part(text, a, b)
}

/// The targets that a list names.
pub fn installed_targets(list: &str) -> (r: Vec<String>)
    ensures
        texts(r@) == named_targets(list@),
{
    let text = chars_of(list);
    let mut out: Vec<String> = Vec::new();
    let mut p: usize = 0;
    let ghost f = |l: Seq<char>| trimmed(l);
    proof {
        assert(text@.skip(0) =~= text@);
        assert(texts(out@) + named_targets(text@) =~= named_targets(text@));
    }
    while p < text.len()
        invariant
            p <= text@.len(),
            texts(out@) + named_targets(text@.skip(p as int)) == named_targets(text@),
        decreases text@.len() - p,
    {
        let ghost rest = text@.skip(p as int);
        proof {
            lines_fit(rest);
        }
        let mut e: usize = p;
        assert(text@.skip(e as int) == rest);
        while e < text.len() && text[e] != '\n'
            invariant
                p <= e <= text@.len(),
                rest == text@.skip(p as int),
                line_len(rest) == (e - p) + line_len(text@.skip(e as int)),
            decreases text@.len() - e,
        {
            assert(text@.skip(e as int).skip(1) =~= text@.skip(e + 1));
            e = e + 1;
        }
        let ghost before = out@;
        let ghost n = line_len(rest) as int;
        assert(n == e - p);
        let one = trimmed_part(&text, p, e);
        out.push(one);
        let next: usize = if e < text.len() {
            e + 1
        } else {
            e
        };
        proof {
            assert(rest.take(n) =~= text@.subrange(p as int, e as int));
            if e < text@.len() {
                assert(rest.skip(n + 1) =~= text@.skip(e + 1));
            } else {
                assert(rest.take(n) =~= rest);
                assert(text@.skip(next as int) =~= Seq::<char>::empty());
            }
            let later = named_targets(text@.skip(next as int));
            assert(lines(rest) =~= seq![rest.take(n)] + lines(text@.skip(next as int)));
            assert(named_targets(rest) =~= seq![one@] + later);
            assert(texts(out@) =~= texts(before).push(one@));
            assert(texts(out@) + later =~= texts(before) + named_targets(rest));
        }
        p = next;
    }
    proof {
        assert(text@.skip(p as int) =~= Seq::<char>::empty());
        assert(named_targets(text@.skip(p as int)) =~= Seq::<Seq<char>>::empty());
        assert(texts(out@) =~= named_targets(text@));
    }
    out
}

/// Whether the list names the target. `success` tells whether the list could be read
/// at all.
pub fn has_rust_target(target: &str, success: bool, list: &str) -> (r: Result<bool, RunnerError>)
    ensures
        !success ==> r matches Err(RunnerError::FailedToCheckRustupTarget),
        success ==> (r matches Ok(b) && b == named_targets(list@).contains(target@)),
{
    if !success {
        return Err(RunnerError::FailedToCheckRustupTarget);
    }
    let names = installed_targets(list);
    Ok(names_target(&names, target))
}

fn names_target(names: &Vec<String>, target: &str) -> (b: bool)
    ensures
        b == texts(names@).contains(target@),
{
    let mut i: usize = 0;
    while i < names.len()
        invariant
            i <= names@.len(),
            forall|j: int| 0 <= j < i ==> (#[trigger] names@[j])@ != target@,
        decreases names@.len() - i,
    {
        if same_text(names[i].as_str(), target) {
            assert(texts(names@)[i as int] == target@);
            return true;
        }
        i = i + 1;
    }
    assert forall|j: int| 0 <= j < texts(names@).len() implies texts(names@)[j] != target@ by {
        assert(names@[j]@ != target@);
    }
    false
}

/// The text names a target for Windows.
pub open spec fn for_windows(name: Seq<char>) -> bool {
    occurs_in(name, "-windows-"@)
}

/// `name` is the target to use for Windows out of a list: the one with Microsoft's
/// toolchain, else the one with GNU's, else the first one for Windows; without any,
/// GNU's.
pub open spec fn best_target(list: Seq<Seq<char>>, name: Seq<char>) -> bool {
    if list.contains("x86_64-pc-windows-msvc"@) {
        name == "x86_64-pc-windows-msvc"@
    } else if list.contains("x86_64-pc-windows-gnu"@) {
        name == "x86_64-pc-windows-gnu"@
    } else if exists|i: int| 0 <= i < list.len() && for_windows(#[trigger] list[i]) {
        exists|i: int|
            0 <= i < list.len() && for_windows(#[trigger] list[i]) && name == list[i] && forall|
                j: int,
            |
                0 <= j < i ==> !for_windows(#[trigger] list[j])
    } else {
        name == "x86_64-pc-windows-gnu"@
    }
}

/// The target to use for Windows out of a list.
pub fn pick_windows_target(names: &Vec<String>) -> (t: String)
    ensures
        best_target(texts(names@), t@),
{
    if names_target(names, "x86_64-pc-windows-msvc") {
        return String::from_str("x86_64-pc-windows-msvc");
    }
    if names_target(names, "x86_64-pc-windows-gnu") {
        return String::from_str("x86_64-pc-windows-gnu");
    }
    let pattern = chars_of("-windows-");
    let mut i: usize = 0;
    while i < names.len()
        invariant
            i <= names@.len(),
            pattern@ == "-windows-"@,
            !texts(names@).contains("x86_64-pc-windows-msvc"@),
            !texts(names@).contains("x86_64-pc-windows-gnu"@),
            forall|j: int| 0 <= j < i ==> !for_windows(#[trigger] texts(names@)[j]),
        decreases names@.len() - i,
    {
        if contains_text(&chars_of(names[i].as_str()), &pattern) {
            assert(for_windows(texts(names@)[i as int]));
            return names[i].clone();
        }
        assert(!for_windows(texts(names@)[i as int]));
        i = i + 1;
    }
    String::from_str("x86_64-pc-windows-gnu")
}

/// The target to build for, if it is not the host's: `list` is what was read of the
/// installed targets, if it could be read.
pub fn windows_target(host_is_windows: bool, target: Target, list: Option<&str>) -> (r: Option<
    String,
>)
    ensures
        host_is_windows || target != Target::Windows ==> r is None,
        !host_is_windows && target == Target::Windows ==> (r matches Some(t) && match list {
            Some(list) => best_target(named_targets(list@), t@),
            None => t@ == "x86_64-pc-windows-gnu"@,
        }),
{
    if host_is_windows || target != Target::Windows {
        return None;
    }
    match list {
        Some(list) => Some(pick_windows_target(&installed_targets(list))),
        None => Some(String::from_str("x86_64-pc-windows-gnu")),
    }
}

} // verus!
