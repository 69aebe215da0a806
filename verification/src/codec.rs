//! The persisted catalog text format: one object with a single
//! `commands` key holding the ordered entry list, each entry an object
//! with exactly the fields id, category, subcategory, title, command,
//! description and isAdmin.  Rendering is compact; parsing tolerates
//! whitespace between tokens and accepts the usual string escapes.

use vstd::prelude::*;
use vstd::std_specs::vec::axiom_spec_len;
use vstd::string::StrSliceExecFns;
use vstd::string::StringExecFns;
use crate::catalog::CommandData;
use crate::catalog::CommandDataV;
use crate::catalog::CommandsFile;
use crate::catalog::entries_view;

verus! {

// ---------------------------------------------------------------------
// String escaping inside the stored text
// ---------------------------------------------------------------------
/// One character as it is written inside a quoted string: quotes and
/// backslashes gain a backslash, everything else is kept as it is.
pub open spec fn json_escape_char(c: char) -> Seq<char> {
    if c == '"' {
        seq!['\\', '"']
    } else if c == '\\' {
        seq!['\\', '\\']
    } else {
        seq![c]
    }
}

/// A whole string as it is written inside quotes.
pub open spec fn json_escape(s: Seq<char>) -> Seq<char>
    decreases s.len(),
{
    if s.len() == 0 {
        Seq::empty()
    } else {
        json_escape_char(s[0]) + json_escape(s.subrange(1, s.len() as int))
    }
}

/// A quoted, escaped string.
pub open spec fn json_string(s: Seq<char>) -> Seq<char> {
    seq!['"'] + json_escape(s) + seq!['"']
}

/// The string escaping distributes over concatenation.
pub proof fn lemma_json_escape_concat(a: Seq<char>, b: Seq<char>)
    ensures
        json_escape(a + b) == json_escape(a) + json_escape(b),
    decreases a.len(),
{
    if a.len() == 0 {
        assert(a + b =~= b);
        assert(json_escape(a) + json_escape(b) =~= json_escape(b));
    } else {
        assert((a + b).subrange(1, (a + b).len() as int) =~= a.subrange(1, a.len() as int) + b);
        lemma_json_escape_concat(a.subrange(1, a.len() as int), b);
        assert(json_escape(a + b) =~= json_escape(a) + json_escape(b));
    }
}

/// The string escaping applied to one character.
proof fn lemma_json_escape_single(c: char)
    ensures
        json_escape(seq![c]) == json_escape_char(c),
{
    assert(seq![c].subrange(1, 1) =~= Seq::<char>::empty());
    assert(json_escape(seq![c].subrange(1, 1)) =~= Seq::<char>::empty());
    assert(json_escape(seq![c]) =~= json_escape_char(c));
}

/// Relies on String::push: it appends exactly the given character.
#[verifier::external_body]
fn push_char(s: &mut String, c: char)
    ensures
        final(s)@ == old(s)@ + seq![c],
{
    s.push(c);
}

/// Render one string as quoted, escaped text.
pub fn render_json_string(s: &str) -> (r: String)
    ensures
        r@ == json_string(s@),
{
    let mut out = String::new();
    push_char(&mut out, '"');
    let n = s.unicode_len();
    let mut i: usize = 0;
    while i < n
        invariant
            n == s@.len(),
            i <= n,
            out@ == seq!['"'] + json_escape(s@.subrange(0, i as int)),
        decreases n - i,
    {
        let c = s.get_char(i);
        if c == '"' {
            out.append("\\\"");
            proof {
                reveal_strlit("\\\"");
                assert("\\\""@ =~= seq!['\\', '"']);
            }
        } else if c == '\\' {
            out.append("\\\\");
            proof {
                reveal_strlit("\\\\");
                assert("\\\\"@ =~= seq!['\\', '\\']);
            }
        } else {
            push_char(&mut out, c);
        }
        proof {
            let pre = s@.subrange(0, i as int);
            assert(s@.subrange(0, i as int + 1) =~= pre + seq![c]);
            lemma_json_escape_concat(pre, seq![c]);
            lemma_json_escape_single(c);
            assert(out@ =~= seq!['"'] + json_escape(s@.subrange(0, i as int + 1)));
        }
        i += 1;
    }
    push_char(&mut out, '"');
    proof {
        assert(s@.subrange(0, n as int) =~= s@);
        assert(out@ =~= json_string(s@));
    }
    out
}

// ---------------------------------------------------------------------
// Rendering
// ---------------------------------------------------------------------
/// One `"key":"value"` pair as stored text.
pub open spec fn render_field(key: Seq<char>, val: Seq<char>) -> Seq<char> {
    key + seq![':'] + json_string(val)
}

/// One entry as stored text.
pub open spec fn render_entry(e: CommandDataV) -> Seq<char> {
    seq!['{'] + render_field("\"id\""@, e.id) + seq![','] + render_field("\"category\""@, e.category)
        + seq![','] + render_field("\"subcategory\""@, e.subcategory) + seq![','] + render_field(
        "\"title\""@,
        e.title,
    ) + seq![','] + render_field("\"command\""@, e.command) + seq![','] + render_field(
        "\"description\""@,
        e.description,
    ) + seq![','] + "\"isAdmin\""@ + seq![':'] + (if e.is_admin {
        "true"@
    } else {
        "false"@
    }) + seq!['}']
}

/// The entry list as stored text, comma separated.
pub open spec fn render_entries(es: Seq<CommandDataV>) -> Seq<char>
    decreases es.len(),
{
    if es.len() == 0 {
        Seq::empty()
    } else if es.len() == 1 {
        render_entry(es[0])
    } else {
        render_entry(es[0]) + seq![','] + render_entries(es.subrange(1, es.len() as int))
    }
}

/// A whole catalog as stored text.
pub open spec fn render_catalog(es: Seq<CommandDataV>) -> Seq<char> {
    seq!['{'] + "\"commands\""@ + seq![':'] + seq!['['] + render_entries(es) + seq![']']
        + seq!['}']
}

/// Appending one entry extends the rendered list by a separator and the
/// rendered entry.
pub proof fn lemma_render_entries_push(es: Seq<CommandDataV>, e: CommandDataV)
    requires
        es.len() >= 1,
    ensures
        render_entries(es.push(e)) == render_entries(es) + seq![','] + render_entry(e),
    decreases es.len(),
{
    let whole = es.push(e);
    if es.len() == 1 {
        assert(whole.subrange(1, whole.len() as int) =~= seq![e]);
        assert(render_entries(seq![e]) == render_entry(e));
        assert(render_entries(whole) =~= render_entries(es) + seq![','] + render_entry(e));
    } else {
        let tail = es.subrange(1, es.len() as int);
        lemma_render_entries_push(tail, e);
        assert(whole.subrange(1, whole.len() as int) =~= tail.push(e));
        assert(render_entries(whole) =~= render_entries(es) + seq![','] + render_entry(e));
    }
}

/// Render one entry.
pub fn render_entry_text(e: &CommandData) -> (r: String)
    ensures
        r@ == render_entry(e@),
{
    let mut out = String::new();
    push_char(&mut out, '{');
    out.append("\"id\"");
    push_char(&mut out, ':');
    let s_id = render_json_string(e.id.as_str());
    out.append(s_id.as_str());
    push_char(&mut out, ',');
    out.append("\"category\"");
    push_char(&mut out, ':');
    let s_cat = render_json_string(e.category.as_str());
    out.append(s_cat.as_str());
    push_char(&mut out, ',');
    out.append("\"subcategory\"");
    push_char(&mut out, ':');
    let s_sub = render_json_string(e.subcategory.as_str());
    out.append(s_sub.as_str());
    push_char(&mut out, ',');
    out.append("\"title\"");
    push_char(&mut out, ':');
    let s_title = render_json_string(e.title.as_str());
    out.append(s_title.as_str());
    push_char(&mut out, ',');
    out.append("\"command\"");
    push_char(&mut out, ':');
    let s_cmd = render_json_string(e.command.as_str());
    out.append(s_cmd.as_str());
    push_char(&mut out, ',');
    out.append("\"description\"");
    push_char(&mut out, ':');
    let s_desc = render_json_string(e.description.as_str());
    out.append(s_desc.as_str());
    push_char(&mut out, ',');
    out.append("\"isAdmin\"");
    push_char(&mut out, ':');
    if e.is_admin {
        out.append("true");
    } else {
        out.append("false");
    }
    push_char(&mut out, '}');
    proof {
        assert(out@ =~= render_entry(e@));
    }
    out
}

/// Render a whole catalog as stored text.
pub fn render_commands_file(f: &CommandsFile) -> (r: String)
    ensures
        r@ == render_catalog(f@),
{
    let mut out = String::new();
    push_char(&mut out, '{');
    out.append("\"commands\"");
    push_char(&mut out, ':');
    push_char(&mut out, '[');
    let mut i: usize = 0;
    while i < f.commands.len()
        invariant
            i <= f.commands@.len(),
            out@ == seq!['{'] + "\"commands\""@ + seq![':'] + seq!['['] + render_entries(
                entries_view(f.commands@.subrange(0, i as int)),
            ),
        decreases f.commands@.len() - i,
    {
        if i > 0 {
            push_char(&mut out, ',');
        }
        let piece = render_entry_text(&f.commands[i]);
        out.append(piece.as_str());
        proof {
            let prev = entries_view(f.commands@.subrange(0, i as int));
            let cur = entries_view(f.commands@.subrange(0, i as int + 1));
            assert(cur =~= prev.push(f.commands@[i as int]@));
            if i == 0 {
                assert(cur.len() == 1);
                assert(render_entries(cur) == render_entry(cur[0]));
                assert(cur[0] == f.commands@[0]@);
            } else {
                lemma_render_entries_push(prev, f.commands@[i as int]@);
            }
            assert(out@ =~= seq!['{'] + "\"commands\""@ + seq![':'] + seq!['['] + render_entries(
                cur,
            ));
        }
        i += 1;
    }
    push_char(&mut out, ']');
    push_char(&mut out, '}');
    proof {
        assert(f.commands@.subrange(0, f.commands@.len() as int) =~= f.commands@);
        assert(out@ =~= render_catalog(f@));
    }
    out
}

// ---------------------------------------------------------------------
// Parsing: specification
// ---------------------------------------------------------------------
/// Whitespace accepted between tokens.
pub open spec fn is_ws(c: char) -> bool {
    c == ' ' || c == '\n' || c == '\t' || c == '\r'
}

/// The first position at or after `i` holding no whitespace.
pub open spec fn ws_end(t: Seq<char>, i: int) -> int
    decreases t.len() - i,
        when 0 <= i <= t.len()
{
    if i < t.len() && is_ws(t[i]) {
        ws_end(t, i + 1)
    } else {
        i
    }
}

/// Expect the exact text `lit` at position `i`.
pub open spec fn sp_lit(t: Seq<char>, i: int, lit: Seq<char>) -> Option<int> {
    if 0 <= i && i + lit.len() <= t.len() && t.subrange(i, i + lit.len()) == lit {
        Some(i + lit.len())
    } else {
        None
    }
}

/// Scan a quoted string's body from `i` to its closing quote, undoing the
/// escapes.
pub open spec fn sp_string_body(t: Seq<char>, i: int) -> Option<(Seq<char>, int)>
    decreases t.len() - i,
        when 0 <= i
{
    if i >= t.len() {
        None
    } else if t[i] == '"' {
        Some((Seq::empty(), i + 1))
    } else if t[i] == '\\' {
        if i + 1 < t.len() && (t[i + 1] == '"' || t[i + 1] == '\\') {
            match sp_string_body(t, i + 2) {
                Some((s, j)) => Some((seq![t[i + 1]] + s, j)),
                None => None,
            }
        } else if i + 1 < t.len() && t[i + 1] == 'n' {
            match sp_string_body(t, i + 2) {
                Some((s, j)) => Some((seq!['\n'] + s, j)),
                None => None,
            }
        } else if i + 1 < t.len() && t[i + 1] == 't' {
            match sp_string_body(t, i + 2) {
                Some((s, j)) => Some((seq!['\t'] + s, j)),
                None => None,
            }
        } else if i + 1 < t.len() && t[i + 1] == 'r' {
            match sp_string_body(t, i + 2) {
                Some((s, j)) => Some((seq!['\r'] + s, j)),
                None => None,
            }
        } else {
            None
        }
    } else {
        match sp_string_body(t, i + 1) {
            Some((s, j)) => Some((seq![t[i]] + s, j)),
            None => None,
        }
    }
}

/// Parse a quoted string starting at `i`.
pub open spec fn sp_string(t: Seq<char>, i: int) -> Option<(Seq<char>, int)> {
    if 0 <= i < t.len() && t[i] == '"' {
        sp_string_body(t, i + 1)
    } else {
        None
    }
}

/// Parse a boolean literal.
pub open spec fn sp_bool(t: Seq<char>, i: int) -> Option<(bool, int)> {
    match sp_lit(t, i, "true"@) {
        Some(j) => Some((true, j)),
        None => match sp_lit(t, i, "false"@) {
            Some(j) => Some((false, j)),
            None => None,
        },
    }
}

/// Parse one `"key" : "value"` pair whose value is a string.
pub open spec fn sp_field(t: Seq<char>, i: int, key: Seq<char>) -> Option<(Seq<char>, int)> {
    match sp_lit(t, ws_end(t, i), key) {
        Some(j) => match sp_lit(t, ws_end(t, j), seq![':']) {
            Some(k) => sp_string(t, ws_end(t, k)),
            None => None,
        },
        None => None,
    }
}

/// Parse one entry object, its fields in the stored order.
pub open spec fn sp_entry(t: Seq<char>, i: int) -> Option<(CommandDataV, int)> {
    match sp_lit(t, ws_end(t, i), seq!['{']) {
        Some(i1) => match sp_field(t, i1, "\"id\""@) {
            Some((id, i2)) => match sp_lit(t, ws_end(t, i2), seq![',']) {
                Some(i3) => match sp_field(t, i3, "\"category\""@) {
                    Some((category, i4)) => match sp_lit(t, ws_end(t, i4), seq![',']) {
                        Some(i5) => match sp_field(t, i5, "\"subcategory\""@) {
                            Some((subcategory, i6)) => match sp_lit(t, ws_end(t, i6), seq![',']) {
                                Some(i7) => match sp_field(t, i7, "\"title\""@) {
                                    Some((title, i8)) => match sp_lit(
                                        t,
                                        ws_end(t, i8),
                                        seq![','],
                                    ) {
                                        Some(i9) => match sp_field(t, i9, "\"command\""@) {
                                            Some((command, i10)) => match sp_lit(
                                                t,
                                                ws_end(t, i10),
                                                seq![','],
                                            ) {
                                                Some(i11) => match sp_field(
                                                    t,
                                                    i11,
                                                    "\"description\""@,
                                                ) {
                                                    Some((description, i12)) => match sp_lit(
                                                        t,
                                                        ws_end(t, i12),
                                                        seq![','],
                                                    ) {
                                                        Some(i13) => match sp_lit(
                                                            t,
                                                            ws_end(t, i13),
                                                            "\"isAdmin\""@,
                                                        ) {
                                                            Some(i14) => match sp_lit(
                                                                t,
                                                                ws_end(t, i14),
                                                                seq![':'],
                                                            ) {
                                                                Some(i15) => match sp_bool(
                                                                    t,
                                                                    ws_end(t, i15),
                                                                ) {
                                                                    Some((is_admin, i16)) => match sp_lit(
                                                                        t,
                                                                        ws_end(t, i16),
                                                                        seq!['}'],
                                                                    ) {
                                                                        Some(i17) => Some(
                                                                            (
                                                                                CommandDataV {
                                                                                    id,
                                                                                    category,
                                                                                    subcategory,
                                                                                    title,
                                                                                    command,
                                                                                    description,
                                                                                    is_admin,
                                                                                },
                                                                                i17,
                                                                            ),
                                                                        ),
                                                                        None => None,
                                                                    },
                                                                    None => None,
                                                                },
                                                                None => None,
                                                            },
                                                            None => None,
                                                        },
                                                        None => None,
                                                    },
                                                    None => None,
                                                },
                                                None => None,
                                            },
                                            None => None,
                                        },
                                        None => None,
                                    },
                                    None => None,
                                },
                                None => None,
                            },
                            None => None,
                        },
                        None => None,
                    },
                    None => None,
                },
                None => None,
            },
            None => None,
        },
        None => None,
    }
}

/// Parse a nonempty entry list up to and including its closing bracket.
pub open spec fn sp_entries(t: Seq<char>, i: int) -> Option<(Seq<CommandDataV>, int)>
    decreases t.len() - i,
        when 0 <= i <= t.len()
{
    match sp_entry(t, i) {
        Some((e, j)) => {
            let k = ws_end(t, j);
            match sp_lit(t, k, seq![',']) {
                Some(k2) => if i < k2 <= t.len() {
                    match sp_entries(t, k2) {
                        Some((es, m)) => Some((seq![e] + es, m)),
                        None => None,
                    }
                } else {
                    None
                },
                None => match sp_lit(t, k, seq![']']) {
                    Some(k3) => Some((seq![e], k3)),
                    None => None,
                },
            }
        },
        None => None,
    }
}

/// After the entry list: the closing brace and nothing but whitespace.
pub open spec fn sp_close(t: Seq<char>, i: int) -> bool {
    match sp_lit(t, ws_end(t, i), seq!['}']) {
        Some(j) => ws_end(t, j) == t.len(),
        None => false,
    }
}

/// Parse a whole catalog text.
pub open spec fn sp_catalog(t: Seq<char>) -> Option<Seq<CommandDataV>> {
    match sp_lit(t, ws_end(t, 0), seq!['{']) {
        Some(i1) => match sp_lit(t, ws_end(t, i1), "\"commands\""@) {
            Some(i2) => match sp_lit(t, ws_end(t, i2), seq![':']) {
                Some(i3) => match sp_lit(t, ws_end(t, i3), seq!['[']) {
                    Some(i4) => {
                        let k = ws_end(t, i4);
                        match sp_lit(t, k, seq![']']) {
                            Some(i5) => if sp_close(t, i5) {
                                Some(Seq::empty())
                            } else {
                                None
                            },
                            None => match sp_entries(t, k) {
                                Some((es, j)) => if sp_close(t, j) {
                                    Some(es)
                                } else {
                                    None
                                },
                                None => None,
                            },
                        }
                    },
                    None => None,
                },
                None => None,
            },
            None => None,
        },
        None => None,
    }
}

// ---------------------------------------------------------------------
// Parsing: executable
// ---------------------------------------------------------------------
/// The characters of a text, in order.
fn str_to_chars(s: &str) -> (v: Vec<char>)
    ensures
        v@ == s@,
{
    let n = s.unicode_len();
    let mut v: Vec<char> = Vec::new();
    let mut i: usize = 0;
    while i < n
        invariant
            n == s@.len(),
            i <= n,
            v@ == s@.subrange(0, i as int),
        decreases n - i,
    {
        v.push(s.get_char(i));
        proof {
            assert(s@.subrange(0, i as int + 1) =~= s@.subrange(0, i as int) + seq![s@[i as int]]);
        }
        i += 1;
    }
    proof {
        assert(s@.subrange(0, n as int) =~= s@);
    }
    v
}

/// One string out of its characters.
fn chars_to_string(v: &Vec<char>) -> (r: String)
    ensures
        r@ == v@,
{
    let mut r = String::new();
    let mut i: usize = 0;
    while i < v.len()
        invariant
            i <= v@.len(),
            r@ == v@.subrange(0, i as int),
        decreases v@.len() - i,
    {
        push_char(&mut r, v[i]);
        proof {
            assert(v@.subrange(0, i as int + 1) =~= v@.subrange(0, i as int) + seq![v@[i as int]]);
        }
        i += 1;
    }
    proof {
        assert(v@.subrange(0, v@.len() as int) =~= v@);
    }
    r
}

/// Skip whitespace.
fn parse_ws(t: &Vec<char>, i: usize) -> (j: usize)
    requires
        i as int <= t@.len(),
    ensures
        j as int == ws_end(t@, i as int),
        i <= j,
        j as int <= t@.len(),
{
    let mut j = i;
    while j < t.len() && (t[j] == ' ' || t[j] == '\n' || t[j] == '\t' || t[j] == '\r')
        invariant
            i <= j,
            j as int <= t@.len(),
            ws_end(t@, i as int) == ws_end(t@, j as int),
        decreases t@.len() - j,
    {
        j += 1;
    }
    j
}

/// Expect one character.
fn parse_char(t: &Vec<char>, i: usize, c: char) -> (r: Option<usize>)
    ensures
        match r {
            Some(j) => sp_lit(t@, i as int, seq![c]) == Some(j as int) && j == i + 1 && j as int
                <= t@.len(),
            None => sp_lit(t@, i as int, seq![c]) is None,
        },
{
    if i < t.len() && t[i] == c {
        proof {
            assert(t@.subrange(i as int, i as int + 1) =~= seq![c]);
        }
        Some(i + 1)
    } else {
        proof {
            if i < t@.len() {
                assert(t@.subrange(i as int, i as int + 1)[0] == t@[i as int]);
            }
        }
        None
    }
}

/// Expect an exact text.
fn parse_lit(t: &Vec<char>, i: usize, lit: &str) -> (r: Option<usize>)
    ensures
        match r {
            Some(j) => sp_lit(t@, i as int, lit@) == Some(j as int) && i <= j && j as int
                <= t@.len(),
            None => sp_lit(t@, i as int, lit@) is None,
        },
{
    proof {
        axiom_spec_len(t);
    }
    let n = lit.unicode_len();
    if i > t.len() || n > t.len() - i {
        return None;
    }
    let mut k: usize = 0;
    while k < n
        invariant
            k <= n,
            n == lit@.len(),
            i + n <= t@.len(),
            t@.len() <= usize::MAX,
            forall|m: int| 0 <= m < k ==> t@[i + m] == #[trigger] lit@[m],
        decreases n - k,
    {
        if t[i + k] != lit.get_char(k) {
            proof {
                assert(t@.subrange(i as int, i as int + lit@.len())[k as int] == t@[i as int
                    + k as int]);
            }
            return None;
        }
        k += 1;
    }
    proof {
        assert(t@.subrange(i as int, i as int + lit@.len()) =~= lit@);
    }
    Some(i + n)
}

/// Scan a quoted string's body, undoing the escapes.
fn parse_string_body(t: &Vec<char>, i: usize) -> (r: Option<(Vec<char>, usize)>)
    requires
        i as int <= t@.len(),
    ensures
        match r {
            Some((s, j)) => sp_string_body(t@, i as int) == Some((s@, j as int)) && i < j
                && j as int <= t@.len(),
            None => sp_string_body(t@, i as int) is None,
        },
{
    let mut acc: Vec<char> = Vec::new();
    let mut cur = i;
    loop
        invariant
            i <= cur,
            cur as int <= t@.len(),
            (match sp_string_body(t@, cur as int) {
                Some((s, j)) => sp_string_body(t@, i as int) == Some((acc@ + s, j)),
                None => sp_string_body(t@, i as int) is None,
            }),
        decreases t@.len() - cur,
    {
        if cur >= t.len() {
            return None;
        }
        let c = t[cur];
        if c == '"' {
            proof {
                assert(acc@ + Seq::<char>::empty() =~= acc@);
            }
            return Some((acc, cur + 1));
        } else if c == '\\' {
            if cur + 1 >= t.len() {
                return None;
            }
            let c2 = t[cur + 1];
            let mapped: char = if c2 == '"' {
                '"'
            } else if c2 == '\\' {
                '\\'
            } else if c2 == 'n' {
                '\n'
            } else if c2 == 't' {
                '\t'
            } else if c2 == 'r' {
                '\r'
            } else {
                return None;
            };
            let ghost acc0 = acc@;
            acc.push(mapped);
            proof {
                match sp_string_body(t@, cur as int + 2) {
                    Some((s2, j2)) => {
                        assert(acc0 + (seq![mapped] + s2) =~= acc@ + s2);
                    },
                    None => {},
                }
            }
            cur = cur + 2;
        } else {
            let ghost acc0 = acc@;
            acc.push(c);
            proof {
                match sp_string_body(t@, cur as int + 1) {
                    Some((s2, j2)) => {
                        assert(acc0 + (seq![c] + s2) =~= acc@ + s2);
                    },
                    None => {},
                }
            }
            cur = cur + 1;
        }
    }
}

/// Parse a quoted string.
fn parse_string(t: &Vec<char>, i: usize) -> (r: Option<(Vec<char>, usize)>)
    ensures
        match r {
            Some((s, j)) => sp_string(t@, i as int) == Some((s@, j as int)) && i < j && j as int
                <= t@.len(),
            None => sp_string(t@, i as int) is None,
        },
{
    if i < t.len() && t[i] == '"' {
        parse_string_body(t, i + 1)
    } else {
        None
    }
}

/// Parse a boolean literal.
fn parse_bool(t: &Vec<char>, i: usize) -> (r: Option<(bool, usize)>)
    ensures
        match r {
            Some((b, j)) => sp_bool(t@, i as int) == Some((b, j as int)) && i <= j && j as int
                <= t@.len(),
            None => sp_bool(t@, i as int) is None,
        },
{
    match parse_lit(t, i, "true") {
        Some(j) => Some((true, j)),
        None => match parse_lit(t, i, "false") {
            Some(j) => Some((false, j)),
            None => None,
        },
    }
}

/// Parse one `"key" : "value"` pair whose value is a string.
fn parse_field(t: &Vec<char>, i: usize, key: &str) -> (r: Option<(Vec<char>, usize)>)
    requires
        i as int <= t@.len(),
    ensures
        match r {
            Some((s, j)) => sp_field(t@, i as int, key@) == Some((s@, j as int)) && i < j
                && j as int <= t@.len(),
            None => sp_field(t@, i as int, key@) is None,
        },
{
    let w = parse_ws(t, i);
    match parse_lit(t, w, key) {
        Some(j) => {
            let w2 = parse_ws(t, j);
            match parse_char(t, w2, ':') {
                Some(k) => {
                    let w3 = parse_ws(t, k);
                    parse_string(t, w3)
                },
                None => None,
            }
        },
        None => None,
    }
}

/// Parse one entry object.
fn parse_entry(t: &Vec<char>, i: usize) -> (r: Option<(CommandData, usize)>)
    requires
        i as int <= t@.len(),
    ensures
        match r {
            Some((e, j)) => sp_entry(t@, i as int) == Some((e@, j as int)) && i < j && j as int
                <= t@.len(),
            None => sp_entry(t@, i as int) is None,
        },
{
    let w = parse_ws(t, i);
    let i1 = match parse_char(t, w, '{') {
        Some(x) => x,
        None => {
            return None;
        },
    };
    let (id, i2) = match parse_field(t, i1, "\"id\"") {
        Some(x) => x,
        None => {
            return None;
        },
    };
    let w2 = parse_ws(t, i2);
    let i3 = match parse_char(t, w2, ',') {
        Some(x) => x,
        None => {
            return None;
        },
    };
    let (category, i4) = match parse_field(t, i3, "\"category\"") {
        Some(x) => x,
        None => {
            return None;
        },
    };
    let w4 = parse_ws(t, i4);
    let i5 = match parse_char(t, w4, ',') {
        Some(x) => x,
        None => {
            return None;
        },
    };
    let (subcategory, i6) = match parse_field(t, i5, "\"subcategory\"") {
        Some(x) => x,
        None => {
            return None;
        },
    };
    let w6 = parse_ws(t, i6);
    let i7 = match parse_char(t, w6, ',') {
        Some(x) => x,
        None => {
            return None;
        },
    };
    let (title, i8) = match parse_field(t, i7, "\"title\"") {
        Some(x) => x,
        None => {
            return None;
        },
    };
    let w8 = parse_ws(t, i8);
    let i9 = match parse_char(t, w8, ',') {
        Some(x) => x,
        None => {
            return None;
        },
    };
    let (command, i10) = match parse_field(t, i9, "\"command\"") {
        Some(x) => x,
        None => {
            return None;
        },
    };
    let w10 = parse_ws(t, i10);
    let i11 = match parse_char(t, w10, ',') {
        Some(x) => x,
        None => {
            return None;
        },
    };
    let (description, i12) = match parse_field(t, i11, "\"description\"") {
        Some(x) => x,
        None => {
            return None;
        },
    };
    let w12 = parse_ws(t, i12);
    let i13 = match parse_char(t, w12, ',') {
        Some(x) => x,
        None => {
            return None;
        },
    };
    let w13 = parse_ws(t, i13);
    let i14 = match parse_lit(t, w13, "\"isAdmin\"") {
        Some(x) => x,
        None => {
            return None;
        },
    };
    let w14 = parse_ws(t, i14);
    let i15 = match parse_char(t, w14, ':') {
        Some(x) => x,
        None => {
            return None;
        },
    };
    let w15 = parse_ws(t, i15);
    let (is_admin, i16) = match parse_bool(t, w15) {
        Some(x) => x,
        None => {
            return None;
        },
    };
    let w16 = parse_ws(t, i16);
    let i17 = match parse_char(t, w16, '}') {
        Some(x) => x,
        None => {
            return None;
        },
    };
    let e = CommandData {
        id: chars_to_string(&id),
        category: chars_to_string(&category),
        subcategory: chars_to_string(&subcategory),
        title: chars_to_string(&title),
        command: chars_to_string(&command),
        description: chars_to_string(&description),
        is_admin,
    };
    Some((e, i17))
}

/// Parse a nonempty entry list up to and including its closing bracket.
fn parse_entries(t: &Vec<char>, i: usize) -> (r: Option<(Vec<CommandData>, usize)>)
    requires
        i as int <= t@.len(),
    ensures
        match r {
            Some((es, j)) => sp_entries(t@, i as int) == Some((entries_view(es@), j as int))
                && j as int <= t@.len(),
            None => sp_entries(t@, i as int) is None,
        },
{
    let mut out: Vec<CommandData> = Vec::new();
    let mut cur = i;
    loop
        invariant
            i <= cur,
            cur as int <= t@.len(),
            (match sp_entries(t@, cur as int) {
                Some((es, m)) => sp_entries(t@, i as int) == Some((entries_view(out@) + es, m)),
                None => sp_entries(t@, i as int) is None,
            }),
        decreases t@.len() - cur,
    {
        let (e, j) = match parse_entry(t, cur) {
            Some(x) => x,
            None => {
                return None;
            },
        };
        let k = parse_ws(t, j);
        match parse_char(t, k, ',') {
            Some(k2) => {
                let ghost out0 = entries_view(out@);
                out.push(e);
                proof {
                    assert(entries_view(out@) =~= out0.push(e@));
                    match sp_entries(t@, k2 as int) {
                        Some((es2, m2)) => {
                            assert(out0 + (seq![e@] + es2) =~= entries_view(out@) + es2);
                        },
                        None => {},
                    }
                }
                cur = k2;
            },
            None => {
                match parse_char(t, k, ']') {
                    Some(k3) => {
                        let ghost out0 = entries_view(out@);
                        out.push(e);
                        proof {
                            assert(entries_view(out@) =~= out0.push(e@));
                            assert(out0 + seq![e@] =~= entries_view(out@));
                        }
                        return Some((out, k3));
                    },
                    None => {
                        return None;
                    },
                }
            },
        }
    }
}

/// After the entry list: the closing brace and nothing but whitespace.
fn parse_close(t: &Vec<char>, i: usize) -> (r: bool)
    requires
        i as int <= t@.len(),
    ensures
        r == sp_close(t@, i as int),
{
    let w = parse_ws(t, i);
    match parse_char(t, w, '}') {
        Some(j) => {
            let w2 = parse_ws(t, j);
            w2 == t.len()
        },
        None => false,
    }
}

/// Parse a whole catalog text, or report that it is not well formed.
pub fn parse_commands_file(s: &str) -> (r: Result<CommandsFile, String>)
    ensures
        match r {
            Ok(c) => sp_catalog(s@) == Some(c@),
            Err(m) => sp_catalog(s@) is None && m@ == "Erro ao parsear JSON: formato inválido"@,
        },
{
    let t = str_to_chars(s);
    proof {
        axiom_spec_len(&t);
    }
    let err: String = "Erro ao parsear JSON: formato inválido".to_owned();
    let w0 = parse_ws(&t, 0);
    let i1 = match parse_char(&t, w0, '{') {
        Some(x) => x,
        None => {
            return Err(err);
        },
    };
    let w1 = parse_ws(&t, i1);
    let i2 = match parse_lit(&t, w1, "\"commands\"") {
        Some(x) => x,
        None => {
            return Err(err);
        },
    };
    let w2 = parse_ws(&t, i2);
    let i3 = match parse_char(&t, w2, ':') {
        Some(x) => x,
        None => {
            return Err(err);
        },
    };
    let w3 = parse_ws(&t, i3);
    let i4 = match parse_char(&t, w3, '[') {
        Some(x) => x,
        None => {
            return Err(err);
        },
    };
    let k = parse_ws(&t, i4);
    match parse_char(&t, k, ']') {
        Some(i5) => {
            if parse_close(&t, i5) {
                let c = CommandsFile { commands: Vec::new() };
                proof {
                    assert(c@ =~= Seq::<CommandDataV>::empty());
                }
                Ok(c)
            } else {
                Err(err)
            }
        },
        None => {
            match parse_entries(&t, k) {
                Some((es, j)) => {
                    if parse_close(&t, j) {
                        Ok(CommandsFile { commands: es })
                    } else {
                        Err(err)
                    }
                },
                None => Err(err),
            }
        },
    }
}

// ---------------------------------------------------------------------
// Round trip: parsing a rendered catalog gives the catalog back
// ---------------------------------------------------------------------
/// A slice of an embedded text equals the matching slice of the text.
proof fn lemma_subrange_slice(t: Seq<char>, i: int, whole: Seq<char>, a: int, b: int)
    requires
        0 <= i,
        i + whole.len() <= t.len(),
        t.subrange(i, i + whole.len()) == whole,
        i <= a <= b <= i + whole.len(),
    ensures
        t.subrange(a, b) == whole.subrange(a - i, b - i),
{
    assert forall|m: int| 0 <= m < b - a implies t.subrange(a, b)[m] == whole.subrange(
        a - i,
        b - i,
    )[m] by {
        assert(t.subrange(i, i + whole.len() as int)[a - i + m] == whole[a - i + m]);
    }
    assert(t.subrange(a, b) =~= whole.subrange(a - i, b - i));
}

/// A character of an embedded text equals the matching character of the
/// text.
proof fn lemma_char_at(t: Seq<char>, i: int, whole: Seq<char>, x: int)
    requires
        0 <= i,
        i + whole.len() <= t.len(),
        t.subrange(i, i + whole.len()) == whole,
        i <= x < i + whole.len(),
    ensures
        t[x] == whole[x - i],
{
    assert(t.subrange(i, i + whole.len() as int)[x - i] == t[x]);
}

/// Scanning an escaped string up to its closing quote undoes the escaping.
proof fn lemma_sp_body_of_escaped(t: Seq<char>, i: int, s: Seq<char>)
    requires
        0 <= i,
        i + json_escape(s).len() + 1 <= t.len(),
        t.subrange(i, i + json_escape(s).len()) == json_escape(s),
        t[i + json_escape(s).len()] == '"',
    ensures
        sp_string_body(t, i) == Some((s, i + json_escape(s).len() + 1)),
    decreases s.len(),
{
    let e = json_escape(s);
    let L = e.len() as int;
    if s.len() == 0 {
        assert(t[i] == '"');
    } else {
        let c = s[0];
        let rest = s.subrange(1, s.len() as int);
        let erest = json_escape(rest);
        assert(e == json_escape_char(c) + erest);
        if c == '"' || c == '\\' {
            assert(json_escape_char(c) == seq!['\\', c]);
            lemma_char_at(t, i, e, i);
            lemma_char_at(t, i, e, i + 1);
            assert(e[0] == '\\');
            assert(e[1] == c);
            lemma_subrange_slice(t, i, e, i + 2, i + L);
            assert(e.subrange(2, L) =~= erest);
            lemma_sp_body_of_escaped(t, i + 2, rest);
            assert(seq![t[i + 1]] + rest =~= s);
        } else {
            lemma_char_at(t, i, e, i);
            assert(e[0] == c);
            lemma_subrange_slice(t, i, e, i + 1, i + L);
            assert(e.subrange(1, L) =~= erest);
            lemma_sp_body_of_escaped(t, i + 1, rest);
            assert(seq![t[i]] + rest =~= s);
        }
    }
}

/// Parsing a rendered quoted string gives the string back.
proof fn lemma_sp_string_of_rendered(t: Seq<char>, i: int, val: Seq<char>)
    requires
        0 <= i,
        i + json_string(val).len() <= t.len(),
        t.subrange(i, i + json_string(val).len()) == json_string(val),
    ensures
        sp_string(t, i) == Some((val, i + json_string(val).len())),
{
    let js = json_string(val);
    let el = json_escape(val).len() as int;
    lemma_char_at(t, i, js, i);
    assert(js[0] == '"');
    lemma_subrange_slice(t, i, js, i + 1, i + 1 + el);
    assert(js.subrange(1, 1 + el) =~= json_escape(val));
    lemma_char_at(t, i, js, i + 1 + el);
    assert(js[1 + el] == '"');
    lemma_sp_body_of_escaped(t, i + 1, val);
}

/// Parsing a rendered field gives its value back.
proof fn lemma_sp_field_of_rendered(t: Seq<char>, i: int, key: Seq<char>, val: Seq<char>)
    requires
        0 <= i,
        key.len() >= 1,
        !is_ws(key[0]),
        i + render_field(key, val).len() <= t.len(),
        t.subrange(i, i + render_field(key, val).len()) == render_field(key, val),
    ensures
        sp_field(t, i, key) == Some((val, i + render_field(key, val).len())),
{
    let f = render_field(key, val);
    let kl = key.len() as int;
    lemma_char_at(t, i, f, i);
    assert(f[0] == key[0]);
    assert(ws_end(t, i) == i);
    lemma_subrange_slice(t, i, f, i, i + kl);
    assert(f.subrange(0, kl) =~= key);
    lemma_char_at(t, i, f, i + kl);
    assert(f[kl] == ':');
    assert(ws_end(t, i + kl) == i + kl);
    lemma_subrange_slice(t, i, f, i + kl, i + kl + 1);
    assert(f.subrange(kl, kl + 1) =~= seq![':']);
    lemma_char_at(t, i, f, i + kl + 1);
    assert(f[kl + 1] == '"');
    assert(ws_end(t, i + kl + 1) == i + kl + 1);
    lemma_subrange_slice(t, i, f, i + kl + 1, i + f.len() as int);
    assert(f.subrange(kl + 1, f.len() as int) =~= json_string(val));
    lemma_sp_string_of_rendered(t, i + kl + 1, val);
}

/// Parsing a rendered entry gives the entry back.
#[verifier::rlimit(100)]
proof fn lemma_sp_entry_of_rendered(t: Seq<char>, i: int, ev: CommandDataV)
    requires
        0 <= i,
        i + render_entry(ev).len() <= t.len(),
        t.subrange(i, i + render_entry(ev).len()) == render_entry(ev),
    ensures
        sp_entry(t, i) == Some((ev, i + render_entry(ev).len())),
{
    reveal_strlit("\"id\"");
    reveal_strlit("\"category\"");
    reveal_strlit("\"subcategory\"");
    reveal_strlit("\"title\"");
    reveal_strlit("\"command\"");
    reveal_strlit("\"description\"");
    reveal_strlit("\"isAdmin\"");
    reveal_strlit("true");
    reveal_strlit("false");
    let e_txt = render_entry(ev);
    let f1 = render_field("\"id\""@, ev.id);
    let f2 = render_field("\"category\""@, ev.category);
    let f3 = render_field("\"subcategory\""@, ev.subcategory);
    let f4 = render_field("\"title\""@, ev.title);
    let f5 = render_field("\"command\""@, ev.command);
    let f6 = render_field("\"description\""@, ev.description);
    let bool_txt: Seq<char> = if ev.is_admin {
        "true"@
    } else {
        "false"@
    };
    let a1 = i + 1;
    let a2 = a1 + f1.len() as int;
    let a3 = a2 + 1;
    let a4 = a3 + f2.len() as int;
    let a5 = a4 + 1;
    let a6 = a5 + f3.len() as int;
    let a7 = a6 + 1;
    let a8 = a7 + f4.len() as int;
    let a9 = a8 + 1;
    let a10 = a9 + f5.len() as int;
    let a11 = a10 + 1;
    let a12 = a11 + f6.len() as int;
    let a13 = a12 + 1;
    let a14 = a13 + 9;
    let a15 = a14 + 1;
    let a16 = a15 + bool_txt.len() as int;
    let fin = a16 + 1;
    assert(fin == i + e_txt.len());
    lemma_char_at(t, i, e_txt, i);
    assert(e_txt[0] == '{');
    assert(ws_end(t, i) == i);
    lemma_subrange_slice(t, i, e_txt, i, a1);
    assert(e_txt.subrange(0, 1) =~= seq!['{']);
    lemma_subrange_slice(t, i, e_txt, a1, a2);
    assert(e_txt.subrange(a1 - i, a2 - i) =~= f1);
    lemma_sp_field_of_rendered(t, a1, "\"id\""@, ev.id);
    lemma_char_at(t, i, e_txt, a2);
    assert(e_txt[a2 - i] == ',');
    assert(ws_end(t, a2) == a2);
    lemma_subrange_slice(t, i, e_txt, a2, a3);
    assert(e_txt.subrange(a2 - i, a3 - i) =~= seq![',']);
    lemma_subrange_slice(t, i, e_txt, a3, a4);
    assert(e_txt.subrange(a3 - i, a4 - i) =~= f2);
    lemma_sp_field_of_rendered(t, a3, "\"category\""@, ev.category);
    lemma_char_at(t, i, e_txt, a4);
    assert(e_txt[a4 - i] == ',');
    assert(ws_end(t, a4) == a4);
    lemma_subrange_slice(t, i, e_txt, a4, a5);
    assert(e_txt.subrange(a4 - i, a5 - i) =~= seq![',']);
    lemma_subrange_slice(t, i, e_txt, a5, a6);
    assert(e_txt.subrange(a5 - i, a6 - i) =~= f3);
    lemma_sp_field_of_rendered(t, a5, "\"subcategory\""@, ev.subcategory);
    lemma_char_at(t, i, e_txt, a6);
    assert(e_txt[a6 - i] == ',');
    assert(ws_end(t, a6) == a6);
    lemma_subrange_slice(t, i, e_txt, a6, a7);
    assert(e_txt.subrange(a6 - i, a7 - i) =~= seq![',']);
    lemma_subrange_slice(t, i, e_txt, a7, a8);
    assert(e_txt.subrange(a7 - i, a8 - i) =~= f4);
    lemma_sp_field_of_rendered(t, a7, "\"title\""@, ev.title);
    lemma_char_at(t, i, e_txt, a8);
    assert(e_txt[a8 - i] == ',');
    assert(ws_end(t, a8) == a8);
    lemma_subrange_slice(t, i, e_txt, a8, a9);
    assert(e_txt.subrange(a8 - i, a9 - i) =~= seq![',']);
    lemma_subrange_slice(t, i, e_txt, a9, a10);
    assert(e_txt.subrange(a9 - i, a10 - i) =~= f5);
    lemma_sp_field_of_rendered(t, a9, "\"command\""@, ev.command);
    lemma_char_at(t, i, e_txt, a10);
    assert(e_txt[a10 - i] == ',');
    assert(ws_end(t, a10) == a10);
    lemma_subrange_slice(t, i, e_txt, a10, a11);
    assert(e_txt.subrange(a10 - i, a11 - i) =~= seq![',']);
    lemma_subrange_slice(t, i, e_txt, a11, a12);
    assert(e_txt.subrange(a11 - i, a12 - i) =~= f6);
    lemma_sp_field_of_rendered(t, a11, "\"description\""@, ev.description);
    lemma_char_at(t, i, e_txt, a12);
    assert(e_txt[a12 - i] == ',');
    assert(ws_end(t, a12) == a12);
    lemma_subrange_slice(t, i, e_txt, a12, a13);
    assert(e_txt.subrange(a12 - i, a13 - i) =~= seq![',']);
    lemma_char_at(t, i, e_txt, a13);
    assert(e_txt[a13 - i] == '"');
    assert(ws_end(t, a13) == a13);
    lemma_subrange_slice(t, i, e_txt, a13, a14);
    assert(e_txt.subrange(a13 - i, a14 - i) =~= "\"isAdmin\""@);
    lemma_char_at(t, i, e_txt, a14);
    assert(e_txt[a14 - i] == ':');
    assert(ws_end(t, a14) == a14);
    lemma_subrange_slice(t, i, e_txt, a14, a15);
    assert(e_txt.subrange(a14 - i, a15 - i) =~= seq![':']);
    lemma_char_at(t, i, e_txt, a15);
    assert(ws_end(t, a15) == a15);
    lemma_subrange_slice(t, i, e_txt, a15, a16);
    assert(e_txt.subrange(a15 - i, a16 - i) =~= bool_txt);
    if ev.is_admin {
        assert(sp_lit(t, a15, "true"@) == Some(a16));
    } else {
        assert(t.subrange(a15, a15 + 4) != "true"@) by {
            lemma_subrange_slice(t, i, e_txt, a15, a15 + 4);
            assert(t.subrange(a15, a15 + 4)[0] == e_txt[a15 - i]);
            assert(e_txt[a15 - i] == 'f');
        }
        assert(sp_lit(t, a15, "true"@) is None);
        assert(sp_lit(t, a15, "false"@) == Some(a16));
    }
    lemma_char_at(t, i, e_txt, a16);
    assert(e_txt[a16 - i] == '}');
    assert(ws_end(t, a16) == a16);
    lemma_subrange_slice(t, i, e_txt, a16, fin);
    assert(e_txt.subrange(a16 - i, fin - i) =~= seq!['}']);
}

/// Parsing a rendered, bracket-terminated entry list gives the entries
/// back.
#[verifier::rlimit(100)]
proof fn lemma_sp_entries_of_rendered(t: Seq<char>, i: int, es: Seq<CommandDataV>)
    requires
        es.len() >= 1,
        0 <= i,
        i + render_entries(es).len() + 1 <= t.len(),
        t.subrange(i, i + render_entries(es).len()) == render_entries(es),
        t[i + render_entries(es).len()] == ']',
    ensures
        sp_entries(t, i) == Some((es, i + render_entries(es).len() + 1)),
    decreases es.len(),
{
    let r_all = render_entries(es);
    let L = r_all.len() as int;
    if es.len() == 1 {
        assert(r_all == render_entry(es[0]));
        lemma_sp_entry_of_rendered(t, i, es[0]);
        let j = i + L;
        assert(ws_end(t, j) == j);
        assert(t.subrange(j, j + 1) =~= seq![']']);
        assert(sp_lit(t, j, seq![',']) is None) by {
            assert(t.subrange(j, j + 1)[0] == ']');
        }
        assert(sp_lit(t, j, seq![']']) == Some(j + 1));
        assert(seq![es[0]] =~= es);
    } else {
        let e0 = es[0];
        let tail = es.subrange(1, es.len() as int);
        let L0 = render_entry(e0).len() as int;
        let lt = render_entries(tail).len() as int;
        assert(r_all == render_entry(e0) + seq![','] + render_entries(tail));
        lemma_subrange_slice(t, i, r_all, i, i + L0);
        assert(r_all.subrange(0, L0) =~= render_entry(e0));
        lemma_sp_entry_of_rendered(t, i, e0);
        let j = i + L0;
        lemma_char_at(t, i, r_all, j);
        assert(r_all[j - i] == ',');
        assert(ws_end(t, j) == j);
        lemma_subrange_slice(t, i, r_all, j, j + 1);
        assert(r_all.subrange(j - i, j - i + 1) =~= seq![',']);
        assert(sp_lit(t, j, seq![',']) == Some(j + 1));
        lemma_subrange_slice(t, i, r_all, j + 1, i + L);
        assert(r_all.subrange(j + 1 - i, L) =~= render_entries(tail));
        assert((j + 1) + lt == i + L);
        lemma_sp_entries_of_rendered(t, j + 1, tail);
        assert(seq![e0] + tail =~= es);
    }
}

/// Law: a catalog saved as stored text and immediately loaded again comes
/// back as an identical ordered sequence of entries.
#[verifier::rlimit(100)]
pub proof fn lemma_catalog_round_trip(es: Seq<CommandDataV>)
    ensures
        sp_catalog(render_catalog(es)) == Some(es),
{
    reveal_strlit("\"commands\"");
    let t = render_catalog(es);
    let L = render_entries(es).len() as int;
    assert(t.subrange(0, t.len() as int) =~= t);
    lemma_char_at(t, 0, t, 0);
    assert(t[0] == '{');
    assert(ws_end(t, 0) == 0);
    lemma_subrange_slice(t, 0, t, 0, 1);
    assert(t.subrange(0, 1) =~= seq!['{']);
    lemma_char_at(t, 0, t, 1);
    assert(t[1] == '"');
    assert(ws_end(t, 1) == 1);
    lemma_subrange_slice(t, 0, t, 1, 11);
    assert(t.subrange(1, 11) =~= "\"commands\""@);
    lemma_char_at(t, 0, t, 11);
    assert(t[11] == ':');
    assert(ws_end(t, 11) == 11);
    lemma_subrange_slice(t, 0, t, 11, 12);
    assert(t.subrange(11, 12) =~= seq![':']);
    lemma_char_at(t, 0, t, 12);
    assert(t[12] == '[');
    assert(ws_end(t, 12) == 12);
    lemma_subrange_slice(t, 0, t, 12, 13);
    assert(t.subrange(12, 13) =~= seq!['[']);
    lemma_char_at(t, 0, t, 13 + L);
    assert(t[13 + L] == ']');
    lemma_char_at(t, 0, t, 14 + L);
    assert(t[14 + L] == '}');
    if es.len() == 0 {
        assert(L == 0);
        assert(ws_end(t, 13) == 13);
        lemma_subrange_slice(t, 0, t, 13, 14);
        assert(t.subrange(13, 14) =~= seq![']']);
        assert(ws_end(t, 14) == 14);
        lemma_subrange_slice(t, 0, t, 14, 15);
        assert(t.subrange(14, 15) =~= seq!['}']);
        assert(ws_end(t, 15) == 15);
        assert(sp_close(t, 14));
    } else {
        lemma_char_at(t, 0, t, 13);
        assert(render_entries(es)[0] == render_entry(es[0])[0]);
        assert(t[13] == '{');
        assert(ws_end(t, 13) == 13);
        assert(sp_lit(t, 13, seq![']']) is None) by {
            assert(t.subrange(13, 14)[0] == t[13]);
            lemma_subrange_slice(t, 0, t, 13, 14);
        }
        lemma_subrange_slice(t, 0, t, 13, 13 + L);
        assert(t.subrange(13, 13 + L) =~= render_entries(es));
        lemma_sp_entries_of_rendered(t, 13, es);
        assert(ws_end(t, 14 + L) == 14 + L);
        lemma_subrange_slice(t, 0, t, 14 + L, 15 + L);
        assert(t.subrange(14 + L, 15 + L) =~= seq!['}']);
        assert(ws_end(t, 15 + L) == 15 + L);
        assert(sp_close(t, 14 + L));
    }
}

/// Law: initializing an absent catalog writes the three seed entries, and
/// loading that text again yields the same three entries unchanged.
pub proof fn lemma_bootstrap_round_trip()
    ensures
        sp_catalog(render_catalog(crate::catalog::default_commands_spec())) == Some(
            crate::catalog::default_commands_spec(),
        ),
{
    lemma_catalog_round_trip(crate::catalog::default_commands_spec());
}


} // verus!
