//! The per-platform escaping steps that embed a user command into a
//! wrapper script: POSIX hosts escape double quotes, Apple-desktop hosts
//! escape backslashes first and double quotes second.

use vstd::prelude::*;
use vstd::string::StrSliceExecFns;
use vstd::string::StringExecFns;

verus! {

/// One character of the quote-escaping step: a double quote gains a
/// preceding backslash, every other character is kept as it is.
pub open spec fn quote_escape_char(c: char) -> Seq<char> {
    if c == '"' {
        seq!['\\', '"']
    } else {
        seq![c]
    }
}

/// The quote-escaping step over a whole command string (the POSIX step).
pub open spec fn quote_escape(s: Seq<char>) -> Seq<char>
    decreases s.len(),
{
    if s.len() == 0 {
        Seq::empty()
    } else {
        quote_escape_char(s[0]) + quote_escape(s.subrange(1, s.len() as int))
    }
}

/// One character of the backslash-escaping step: a backslash is doubled,
/// every other character is kept as it is.
pub open spec fn backslash_escape_char(c: char) -> Seq<char> {
    if c == '\\' {
        seq!['\\', '\\']
    } else {
        seq![c]
    }
}

/// The backslash-escaping step over a whole command string.
pub open spec fn backslash_escape(s: Seq<char>) -> Seq<char>
    decreases s.len(),
{
    if s.len() == 0 {
        Seq::empty()
    } else {
        backslash_escape_char(s[0]) + backslash_escape(s.subrange(1, s.len() as int))
    }
}

/// The Apple-desktop escaping step: backslashes first, then quotes.
pub open spec fn apple_escape(s: Seq<char>) -> Seq<char> {
    quote_escape(backslash_escape(s))
}

/// Undo the quote-escaping step: drop the backslash in front of each
/// double quote, keep everything else.
pub open spec fn quote_unescape(t: Seq<char>) -> Seq<char>
    decreases t.len(),
{
    if t.len() == 0 {
        Seq::empty()
    } else if t.len() >= 2 && t[0] == '\\' && t[1] == '"' {
        seq!['"'] + quote_unescape(t.subrange(2, t.len() as int))
    } else {
        seq![t[0]] + quote_unescape(t.subrange(1, t.len() as int))
    }
}

/// Undo the backslash-escaping step: collapse each doubled backslash,
/// keep everything else.
pub open spec fn backslash_unescape(t: Seq<char>) -> Seq<char>
    decreases t.len(),
{
    if t.len() == 0 {
        Seq::empty()
    } else if t.len() >= 2 && t[0] == '\\' && t[1] == '\\' {
        seq!['\\'] + backslash_unescape(t.subrange(2, t.len() as int))
    } else {
        seq![t[0]] + backslash_unescape(t.subrange(1, t.len() as int))
    }
}

/// Undo the Apple-desktop escaping step, in reverse order of escaping:
/// quotes first, then backslashes.
pub open spec fn apple_unescape(t: Seq<char>) -> Seq<char> {
    backslash_unescape(quote_unescape(t))
}

/// The quote-escaping step distributes over concatenation.
pub proof fn lemma_quote_escape_concat(a: Seq<char>, b: Seq<char>)
    ensures
        quote_escape(a + b) == quote_escape(a) + quote_escape(b),
    decreases a.len(),
{
    if a.len() == 0 {
        assert(a + b =~= b);
        assert(quote_escape(a) + quote_escape(b) =~= quote_escape(b));
    } else {
        assert((a + b).subrange(1, (a + b).len() as int) =~= a.subrange(1, a.len() as int) + b);
        lemma_quote_escape_concat(a.subrange(1, a.len() as int), b);
        assert(quote_escape(a + b) =~= quote_escape(a) + quote_escape(b));
    }
}

/// The backslash-escaping step distributes over concatenation.
pub proof fn lemma_backslash_escape_concat(a: Seq<char>, b: Seq<char>)
    ensures
        backslash_escape(a + b) == backslash_escape(a) + backslash_escape(b),
    decreases a.len(),
{
    if a.len() == 0 {
        assert(a + b =~= b);
        assert(backslash_escape(a) + backslash_escape(b) =~= backslash_escape(b));
    } else {
        assert((a + b).subrange(1, (a + b).len() as int) =~= a.subrange(1, a.len() as int) + b);
        lemma_backslash_escape_concat(a.subrange(1, a.len() as int), b);
        assert(backslash_escape(a + b) =~= backslash_escape(a) + backslash_escape(b));
    }
}

/// A quote-escaped string never starts with a bare double quote.
proof fn lemma_quote_escape_first(s: Seq<char>)
    ensures
        quote_escape(s).len() >= s.len(),
        quote_escape(s).len() > 0 ==> quote_escape(s)[0] != '"',
    decreases s.len(),
{
    if s.len() > 0 {
        lemma_quote_escape_first(s.subrange(1, s.len() as int));
    }
}

/// Law: the POSIX escaping step alters nothing but double quotes: dropping
/// the inserted backslashes gives back exactly the original string.
pub proof fn lemma_posix_escape_strip(s: Seq<char>)
    ensures
        quote_unescape(quote_escape(s)) == s,
    decreases s.len(),
{
    if s.len() == 0 {
    } else {
        let rest = s.subrange(1, s.len() as int);
        let t = quote_escape(s);
        lemma_posix_escape_strip(rest);
        if s[0] == '"' {
            assert(t =~= seq!['\\', '"'] + quote_escape(rest));
            assert(t.subrange(2, t.len() as int) =~= quote_escape(rest));
            assert(quote_unescape(t) =~= seq!['"'] + rest);
            assert(seq!['"'] + rest =~= s);
        } else {
            lemma_quote_escape_first(rest);
            assert(t[0] == s[0]);
            assert(t.len() >= 2 ==> t[1] == quote_escape(rest)[0]);
            assert(!(t.len() >= 2 && t[0] == '\\' && t[1] == '"'));
            assert(t.subrange(1, t.len() as int) =~= quote_escape(rest));
            assert(quote_unescape(t) =~= seq![s[0]] + rest);
            assert(seq![s[0]] + rest =~= s);
        }
    }
}

/// Law: in the POSIX-escaped string every double quote is preceded by a
/// backslash (the one the escaping step inserted).
pub proof fn lemma_posix_escape_quotes_escaped(s: Seq<char>)
    ensures
        forall|i: int|
            0 <= i < quote_escape(s).len() && #[trigger] quote_escape(s)[i] == '"' ==> i >= 1
                && quote_escape(s)[i - 1] == '\\',
    decreases s.len(),
{
    if s.len() == 0 {
    } else {
        let rest = s.subrange(1, s.len() as int);
        let head = quote_escape_char(s[0]);
        let t = quote_escape(s);
        lemma_posix_escape_quotes_escaped(rest);
        lemma_quote_escape_first(rest);
        assert forall|i: int| 0 <= i < t.len() && #[trigger] t[i] == '"' implies i >= 1 && t[i - 1]
            == '\\' by {
            if i < head.len() {
                assert(s[0] == '"' && i == 1);
            } else {
                let j = i - head.len();
                assert(t[i] == quote_escape(rest)[j]);
                if j == 0 {
                } else {
                    assert(t[i - 1] == quote_escape(rest)[j - 1]);
                }
            }
        }
    }
}

/// A backslash-escaped string round-trips through its unescaping step.
pub proof fn lemma_backslash_escape_strip(s: Seq<char>)
    ensures
        backslash_unescape(backslash_escape(s)) == s,
    decreases s.len(),
{
    if s.len() == 0 {
    } else {
        let rest = s.subrange(1, s.len() as int);
        let t = backslash_escape(s);
        lemma_backslash_escape_strip(rest);
        if s[0] == '\\' {
            assert(t =~= seq!['\\', '\\'] + backslash_escape(rest));
            assert(t.subrange(2, t.len() as int) =~= backslash_escape(rest));
            assert(backslash_unescape(t) =~= seq!['\\'] + rest);
            assert(seq!['\\'] + rest =~= s);
        } else {
            assert(t[0] == s[0]);
            assert(!(t.len() >= 2 && t[0] == '\\' && t[1] == '\\'));
            assert(t.subrange(1, t.len() as int) =~= backslash_escape(rest));
            assert(backslash_unescape(t) =~= seq![s[0]] + rest);
            assert(seq![s[0]] + rest =~= s);
        }
    }
}

/// Law: unescaping the Apple-desktop escaping steps in reverse order
/// (quotes first, then backslashes) yields the original command string.
pub proof fn lemma_apple_escape_round_trip(s: Seq<char>)
    ensures
        apple_unescape(apple_escape(s)) == s,
{
    lemma_posix_escape_strip(backslash_escape(s));
    lemma_backslash_escape_strip(s);
}

/// The quote-escaping step applied to one kept character.
proof fn lemma_quote_escape_single(c: char)
    ensures
        quote_escape(seq![c]) == quote_escape_char(c),
{
    assert(seq![c].subrange(1, 1) =~= Seq::<char>::empty());
    assert(quote_escape(seq![c].subrange(1, 1)) =~= Seq::<char>::empty());
    assert(quote_escape(seq![c]) =~= quote_escape_char(c));
}

/// The backslash-escaping step applied to one kept character.
proof fn lemma_backslash_escape_single(c: char)
    ensures
        backslash_escape(seq![c]) == backslash_escape_char(c),
{
    assert(seq![c].subrange(1, 1) =~= Seq::<char>::empty());
    assert(backslash_escape(seq![c].subrange(1, 1)) =~= Seq::<char>::empty());
    assert(backslash_escape(seq![c]) =~= backslash_escape_char(c));
}

/// The POSIX escaping step: put a backslash before each double quote.
pub fn escape_posix(s: &str) -> (r: String)
    ensures
        r@ == quote_escape(s@),
{
    let n = s.unicode_len();
    let mut out = String::new();
    let mut i: usize = 0;
    while i < n
        invariant
            n == s@.len(),
            i <= n,
            out@ == quote_escape(s@.subrange(0, i as int)),
        decreases n - i,
    {
        let c = s.get_char(i);
        if c == '"' {
            out.append("\\\"");
            proof {
                reveal_strlit("\\\"");
                assert("\\\""@ =~= seq!['\\', '"']);
            }
        } else {
            let piece = s.substring_char(i, i + 1);
            out.append(piece);
            proof {
                assert(piece@ =~= seq![c]);
            }
        }
        proof {
            let pre = s@.subrange(0, i as int);
            assert(s@.subrange(0, i as int + 1) =~= pre + seq![c]);
            lemma_quote_escape_concat(pre, seq![c]);
            lemma_quote_escape_single(c);
        }
        i += 1;
    }
    proof {
        assert(s@.subrange(0, n as int) =~= s@);
    }
    out
}

/// The backslash-escaping step: double each backslash.
pub fn escape_backslashes(s: &str) -> (r: String)
    ensures
        r@ == backslash_escape(s@),
{
    let n = s.unicode_len();
    let mut out = String::new();
    let mut i: usize = 0;
    while i < n
        invariant
            n == s@.len(),
            i <= n,
            out@ == backslash_escape(s@.subrange(0, i as int)),
        decreases n - i,
    {
        let c = s.get_char(i);
        if c == '\\' {
            out.append("\\\\");
            proof {
                reveal_strlit("\\\\");
                assert("\\\\"@ =~= seq!['\\', '\\']);
            }
        } else {
            let piece = s.substring_char(i, i + 1);
            out.append(piece);
            proof {
                assert(piece@ =~= seq![c]);
            }
        }
        proof {
            let pre = s@.subrange(0, i as int);
            assert(s@.subrange(0, i as int + 1) =~= pre + seq![c]);
            lemma_backslash_escape_concat(pre, seq![c]);
            lemma_backslash_escape_single(c);
        }
        i += 1;
    }
    proof {
        assert(s@.subrange(0, n as int) =~= s@);
    }
    out
}

/// The Apple-desktop escaping step: backslashes first, then quotes.
pub fn escape_apple(s: &str) -> (r: String)
    ensures
        r@ == apple_escape(s@),
{
    let doubled = escape_backslashes(s);
    escape_posix(doubled.as_str())
}

} // verus!
