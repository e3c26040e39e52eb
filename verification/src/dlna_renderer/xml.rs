//! XML character escaping for SOAP payloads, and the law that unescaping undoes
//! escaping.
use vstd::prelude::*;
use crate::text::{chars_of, push_char, replace_all, replace_chars, starts_with, string_of};

verus! {

/// The escaped form of one character: `&`, `<`, `>` and `"` become entities.
pub open spec fn escape_char(c: char) -> Seq<char> {
    if c == '&' {
        "&amp;"@
    } else if c == '<' {
        "&lt;"@
    } else if c == '>' {
        "&gt;"@
    } else if c == '"' {
        "&quot;"@
    } else {
        seq![c]
    }
}

/// `s` with every character escaped.
pub open spec fn xml_escaped(s: Seq<char>) -> Seq<char>
    decreases s.len(),
{
    if s.len() == 0 {
        Seq::empty()
    } else {
        escape_char(s[0]) + xml_escaped(s.drop_first())
    }
}

/// `s` with the entities `&lt;`, `&gt;`, `&quot;`, `&apos;` and, last, `&amp;`
/// replaced, each over the whole text (as chained `str::replace` calls do).
/// Decoding `&amp;` last means an entity spelled out in the text itself (such as
/// the escaped form of `&lt;`) is not decoded a second time.
pub open spec fn xml_unescaped(s: Seq<char>) -> Seq<char> {
    replace_all(
        replace_all(
            replace_all(replace_all(replace_all(s, "&lt;"@, "<"@), "&gt;"@, ">"@), "&quot;"@, "\""@),
            "&apos;"@,
            "'"@,
        ),
        "&amp;"@,
        "&"@,
    )
}

proof fn lemma_escaped_append(s: Seq<char>, c: char)
    ensures
        xml_escaped(s.push(c)) == xml_escaped(s) + escape_char(c),
    decreases s.len(),
{
    if s.len() == 0 {
        assert(s.push(c).drop_first() =~= Seq::<char>::empty());
        assert(s.push(c)[0] == c);
        assert(xml_escaped(s.push(c).drop_first()) =~= Seq::<char>::empty());
        assert(xml_escaped(s) =~= Seq::<char>::empty());
        assert(xml_escaped(s.push(c)) =~= escape_char(c) + Seq::<char>::empty());
        assert(escape_char(c) + Seq::<char>::empty() =~= escape_char(c));
    } else {
        assert(s.push(c).drop_first() =~= s.drop_first().push(c));
        lemma_escaped_append(s.drop_first(), c);
        assert(xml_escaped(s.push(c)) =~= xml_escaped(s) + escape_char(c));
    }
}

/// Escapes `&`, `<`, `>` and `"` for inclusion in XML text.
pub fn xml_escape(s: &str) -> (r: String)
    ensures
        r@ == xml_escaped(s@),
{
    let v = chars_of(s);
    let mut out = String::new();
    let mut i: usize = 0;
    while i < v.len()
        invariant
            i <= v.len(),
            v@ == s@,
            out@ == xml_escaped(v@.take(i as int)),
        decreases v.len() - i,
    {
        let c = v[i];
        proof {
            assert(v@.take(i + 1) =~= v@.take(i as int).push(c));
            lemma_escaped_append(v@.take(i as int), c);
        }
        if c == '&' {
            out.append("&amp;");
        } else if c == '<' {
            out.append("&lt;");
        } else if c == '>' {
            out.append("&gt;");
        } else if c == '"' {
            out.append("&quot;");
        } else {
            push_char(&mut out, c);
        }
        i = i + 1;
    }
    proof {
        assert(v@.take(v.len() as int) =~= v@);
    }
    out
}

/// Replaces the XML entities `&lt;`, `&gt;`, `&quot;`, `&apos;` and `&amp;`.
pub fn xml_unescape(s: &str) -> (r: String)
    ensures
        r@ == xml_unescaped(s@),
{
    proof {
        reveal_strlit("&amp;");
        reveal_strlit("&lt;");
        reveal_strlit("&gt;");
        reveal_strlit("&quot;");
        reveal_strlit("&apos;");
    }
    let v = chars_of(s);
    let a = replace_chars(&v, "&lt;", "<");
    let b = replace_chars(&a, "&gt;", ">");
    let c = replace_chars(&b, "&quot;", "\"");
    let d = replace_chars(&c, "&apos;", "'");
    let e = replace_chars(&d, "&amp;", "&");
    string_of(&e)
}

// ---------------------------------------------------------------------------
// Unescaping undoes escaping.
// ---------------------------------------------------------------------------

/// No `&` occurs in `s`.
pub open spec fn no_amp(s: Seq<char>) -> bool {
    forall|i: int| 0 <= i < s.len() ==> #[trigger] s[i] != '&'
}

/// Text without `&` passes through a replacement of an `&`-led pattern.
proof fn lemma_replace_plain(w: Seq<char>, rest: Seq<char>, p: Seq<char>, r: Seq<char>)
    requires
        p.len() > 0,
        p[0] == '&',
        no_amp(w),
    ensures
        replace_all(w + rest, p, r) == w + replace_all(rest, p, r),
    decreases w.len(),
{
    if w.len() == 0 {
        assert(w + rest =~= rest);
        assert(w + replace_all(rest, p, r) =~= replace_all(rest, p, r));
    } else {
        let s = w + rest;
        assert(s[0] == w[0]);
        assert(!starts_with(s, p)) by {
            if starts_with(s, p) {
                assert(s[0int + 0int] == p[0]);
            }
        }
        assert(s.drop_first() =~= w.drop_first() + rest);
        lemma_replace_plain(w.drop_first(), rest, p, r);
        assert(seq![w[0]] + (w.drop_first() + replace_all(rest, p, r)) =~= w + replace_all(
            rest,
            p,
            r,
        ));
    }
}

/// An entity that differs from the pattern at index `j` passes through the
/// replacement.
proof fn lemma_replace_other(e: Seq<char>, rest: Seq<char>, p: Seq<char>, r: Seq<char>, j: int)
    requires
        1 <= j < p.len(),
        j < e.len(),
        p[0] == '&',
        e[0] == '&',
        e[j] != p[j],
        no_amp(e.drop_first()),
    ensures
        replace_all(e + rest, p, r) == e + replace_all(rest, p, r),
{
    let s = e + rest;
    assert(s[j] == e[j]);
    assert(!starts_with(s, p)) by {
        if starts_with(s, p) {
            assert(s[0int + j] == p[j]);
        }
    }
    assert(s.drop_first() =~= e.drop_first() + rest);
    lemma_replace_plain(e.drop_first(), rest, p, r);
    assert(seq![e[0]] + (e.drop_first() + replace_all(rest, p, r)) =~= e + replace_all(rest, p, r));
}

/// The pattern itself is replaced.
proof fn lemma_replace_match(p: Seq<char>, rest: Seq<char>, r: Seq<char>)
    requires
        p.len() > 0,
    ensures
        replace_all(p + rest, p, r) == r + replace_all(rest, p, r),
{
    let s = p + rest;
    assert forall|k: int| 0 <= k < p.len() implies #[trigger] s[0int + k] == p[k] by {}
    assert(starts_with(s, p));
    assert(s.skip(p.len() as int) =~= rest);
}

/// One character of an escaped text after the first `k` unescaping steps:
/// step 1 restores `<`, step 2 `>`, step 3 `"`, and step 4 (`&amp;`) `&`.
pub open spec fn stage_char(c: char, k: int) -> Seq<char> {
    if (c == '<' && k >= 1) || (c == '>' && k >= 2) || (c == '"' && k >= 3) || (c == '&' && k >= 4) {
        seq![c]
    } else {
        escape_char(c)
    }
}

/// An escaped text after the first `k` unescaping steps.
pub open spec fn staged(s: Seq<char>, k: int) -> Seq<char>
    decreases s.len(),
{
    if s.len() == 0 {
        Seq::empty()
    } else {
        stage_char(s[0], k) + staged(s.drop_first(), k)
    }
}

/// The entity that unescaping step `k` (1 to 3) replaces.
pub open spec fn stage_pattern(k: int) -> Seq<char> {
    if k == 1 {
        "&lt;"@
    } else if k == 2 {
        "&gt;"@
    } else {
        "&quot;"@
    }
}

/// The character that unescaping step `k` (1 to 3) restores.
pub open spec fn stage_char_of(k: int) -> char {
    if k == 1 {
        '<'
    } else if k == 2 {
        '>'
    } else {
        '"'
    }
}

proof fn reveal_entities()
    ensures
        "&amp;"@ =~= seq!['&', 'a', 'm', 'p', ';'],
        "&lt;"@ =~= seq!['&', 'l', 't', ';'],
        "&gt;"@ =~= seq!['&', 'g', 't', ';'],
        "&quot;"@ =~= seq!['&', 'q', 'u', 'o', 't', ';'],
        "&apos;"@ =~= seq!['&', 'a', 'p', 'o', 's', ';'],
        "&"@ =~= seq!['&'],
        "<"@ =~= seq!['<'],
        ">"@ =~= seq!['>'],
        "\""@ =~= seq!['"'],
        "'"@ =~= seq!['\''],
{
    reveal_strlit("&amp;");
    reveal_strlit("&lt;");
    reveal_strlit("&gt;");
    reveal_strlit("&quot;");
    reveal_strlit("&apos;");
    reveal_strlit("&");
    reveal_strlit("<");
    reveal_strlit(">");
    reveal_strlit("\"");
    reveal_strlit("'");
}

proof fn lemma_staged_zero(s: Seq<char>)
    ensures
        staged(s, 0) == xml_escaped(s),
    decreases s.len(),
{
    if s.len() > 0 {
        lemma_staged_zero(s.drop_first());
    }
}

proof fn lemma_staged_four(s: Seq<char>)
    ensures
        staged(s, 4) == s,
    decreases s.len(),
{
    if s.len() > 0 {
        lemma_staged_four(s.drop_first());
        assert(seq![s[0]] + s.drop_first() =~= s);
    }
}

/// Unescaping step `k` (`&lt;`, `&gt;`, `&quot;`) turns stage `k - 1` into
/// stage `k`.
proof fn lemma_stage_step(s: Seq<char>, k: int)
    requires
        1 <= k <= 3,
    ensures
        replace_all(staged(s, k - 1), stage_pattern(k), seq![stage_char_of(k)]) == staged(s, k),
    decreases s.len(),
{
    reveal_entities();
    let p = stage_pattern(k);
    let r = seq![stage_char_of(k)];
    if s.len() > 0 {
        let c = s[0];
        let t = s.drop_first();
        lemma_stage_step(t, k);
        let e = stage_char(c, k - 1);
        assert(staged(s, k - 1) == e + staged(t, k - 1));
        if c == stage_char_of(k) {
            assert(e == p);
            lemma_replace_match(p, staged(t, k - 1), r);
            assert(stage_char(c, k) == r);
        } else if e.len() == 1 {
            assert(no_amp(e)) by {
                assert(e[0] != '&');
            }
            lemma_replace_plain(e, staged(t, k - 1), p, r);
            assert(stage_char(c, k) == e);
        } else {
            assert(no_amp(e.drop_first()));
            lemma_replace_other(e, staged(t, k - 1), p, r, 1);
            assert(stage_char(c, k) == e);
        }
    }
}

/// Replacing `&apos;` leaves stage 3 unchanged: every `&` left begins `&amp;`.
proof fn lemma_stage_apos(s: Seq<char>)
    ensures
        replace_all(staged(s, 3), "&apos;"@, "'"@) == staged(s, 3),
    decreases s.len(),
{
    reveal_entities();
    if s.len() > 0 {
        let c = s[0];
        let t = s.drop_first();
        lemma_stage_apos(t);
        let e = stage_char(c, 3);
        assert(staged(s, 3) == e + staged(t, 3));
        if c == '&' {
            assert(e == "&amp;"@);
            assert(no_amp(e.drop_first()));
            lemma_replace_other(e, staged(t, 3), "&apos;"@, "'"@, 2);
        } else {
            assert(e == seq![c]);
            assert(no_amp(e)) by {
                assert(e[0] != '&');
            }
            lemma_replace_plain(e, staged(t, 3), "&apos;"@, "'"@);
        }
    }
}

/// Replacing `&amp;` at stage 3 restores the `&` characters.
proof fn lemma_stage_amp(s: Seq<char>)
    ensures
        replace_all(staged(s, 3), "&amp;"@, "&"@) == staged(s, 4),
    decreases s.len(),
{
    reveal_entities();
    if s.len() > 0 {
        let c = s[0];
        let t = s.drop_first();
        lemma_stage_amp(t);
        let e = stage_char(c, 3);
        assert(staged(s, 3) == e + staged(t, 3));
        if c == '&' {
            assert(e == "&amp;"@);
            lemma_replace_match("&amp;"@, staged(t, 3), "&"@);
            assert(stage_char(c, 4) == "&"@);
        } else {
            assert(e == seq![c]);
            assert(no_amp(e)) by {
                assert(e[0] != '&');
            }
            lemma_replace_plain(e, staged(t, 3), "&amp;"@, "&"@);
            assert(stage_char(c, 4) == e);
        }
    }
}

/// Unescaping gives back exactly what escaping was given, for every text.
pub proof fn lemma_unescape_escape(s: Seq<char>)
    ensures
        xml_unescaped(xml_escaped(s)) == s,
{
    reveal_entities();
    lemma_staged_zero(s);
    assert(stage_pattern(1) == "&lt;"@ && seq![stage_char_of(1)] == "<"@);
    assert(stage_pattern(2) == "&gt;"@ && seq![stage_char_of(2)] == ">"@);
    assert(stage_pattern(3) == "&quot;"@ && seq![stage_char_of(3)] == "\""@);
    lemma_stage_step(s, 1);
    lemma_stage_step(s, 2);
    lemma_stage_step(s, 3);
    lemma_stage_apos(s);
    lemma_stage_amp(s);
    lemma_staged_four(s);
}

} // verus!
