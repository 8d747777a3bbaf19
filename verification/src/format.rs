use vstd::prelude::*;

use crate::text::{chars_of, push_char};

verus! {

/// `fmt` with every `{}` replaced by `status`, scanning left to right; the
/// inserted text is not scanned again.
pub open spec fn fill_placeholders(fmt: Seq<char>, status: Seq<char>) -> Seq<char>
    decreases fmt.len(),
{
    if fmt.len() == 0 {
        Seq::empty()
    } else if fmt.len() >= 2 && fmt[0] == '{' && fmt[1] == '}' {
        status + fill_placeholders(fmt.skip(2), status)
    } else {
        seq![fmt[0]] + fill_placeholders(fmt.drop_first(), status)
    }
}

/// Whether `fmt` holds the placeholder `{}` anywhere.
pub open spec fn has_placeholder(fmt: Seq<char>) -> bool {
    exists|i: int| 0 <= i < fmt.len() - 1 && fmt[i] == '{' && #[trigger] fmt[i + 1] == '}'
}

/// The label text: `fmt` with every `{}` replaced by `status`.
pub fn apply_format(fmt: &str, status: &str) -> (s: String)
    ensures
        s@ == fill_placeholders(fmt@, status@),
{
    let chars = chars_of(fmt);
    let n = chars.len();
    let mut s = String::new();
    let mut i: usize = 0;
    assert(fmt@.skip(0) == fmt@);
    while i < n
        invariant
            chars@ == fmt@,
            n == chars.len(),
            i <= n,
            fill_placeholders(fmt@, status@) == s@ + fill_placeholders(fmt@.skip(i as int), status@),
        decreases n - i,
    {
        let ghost rest = fmt@.skip(i as int);
        if i + 1 < n && chars[i] == '{' && chars[i + 1] == '}' {
            assert(rest[0] == '{' && rest[1] == '}');
            assert(rest.skip(2) == fmt@.skip(i + 2));
            s.append(status);
            i = i + 2;
        } else {
            assert(rest[0] == chars[i as int]);
            assert(rest.drop_first() == fmt@.skip(i + 1));
            push_char(&mut s, chars[i]);
            i = i + 1;
        }
    }
    assert(fmt@.skip(i as int).len() == 0);
    s
}

/// A format without a placeholder is shown as it is.
pub proof fn lemma_no_placeholder_verbatim(fmt: Seq<char>, status: Seq<char>)
    requires
        !has_placeholder(fmt),
    ensures
        fill_placeholders(fmt, status) == fmt,
    decreases fmt.len(),
{
    if fmt.len() > 0 {
        let rest = fmt.drop_first();
        assert(!has_placeholder(rest)) by {
            if has_placeholder(rest) {
                let i = choose|i: int| 0 <= i < rest.len() - 1 && rest[i] == '{' && #[trigger] rest[i + 1] == '}';
                assert(fmt[i + 1] == '{' && fmt[i + 2] == '}');
            }
        }
        if fmt.len() >= 2 && fmt[0] == '{' && fmt[1] == '}' {
            assert(fmt[0] == '{' && fmt[0int + 1] == '}');
        }
        lemma_no_placeholder_verbatim(rest, status);
        assert(seq![fmt[0]] + rest == fmt);
    }
}

/// Filling is done piece by piece: a format cut anywhere but just after a `{`
/// fills as its two pieces do, one after the other.
pub proof fn lemma_fill_concat(a: Seq<char>, b: Seq<char>, status: Seq<char>)
    requires
        a.len() == 0 || a.last() != '{',
    ensures
        fill_placeholders(a + b, status) == fill_placeholders(a, status) + fill_placeholders(b, status),
    decreases a.len(),
{
    if a.len() == 0 {
        assert(a + b == b);
    } else if a.len() >= 2 && a[0] == '{' && a[1] == '}' {
        let rest = a.skip(2);
        assert((a + b).skip(2) == rest + b);
        if rest.len() > 0 {
            assert(rest.last() == a.last());
        }
        lemma_fill_concat(rest, b, status);
    } else {
        let rest = a.drop_first();
        assert((a + b).drop_first() == rest + b);
        if rest.len() > 0 {
            assert(rest.last() == a.last());
        } else {
            // a is one character, not `{`, so it cannot start a placeholder with b
            assert((a + b)[0] == a[0]);
        }
        lemma_fill_concat(rest, b, status);
    }
}

/// Each placeholder takes the status text once: `a{}b` fills as `a`, then the
/// status, then `b`, when `a` does not end with `{`.
pub proof fn lemma_placeholder_takes_status(a: Seq<char>, b: Seq<char>, status: Seq<char>)
    requires
        a.len() == 0 || a.last() != '{',
    ensures
        fill_placeholders(a + seq!['{', '}'] + b, status) == fill_placeholders(a, status) + status
            + fill_placeholders(b, status),
{
    let p = seq!['{', '}'];
    lemma_fill_concat(a, p + b, status);
    assert(a + p + b == a + (p + b));
    assert((p + b).skip(2) == b);
    assert((p + b)[0] == '{' && (p + b)[1] == '}');
}

} // verus!
