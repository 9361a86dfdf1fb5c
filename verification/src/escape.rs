use vstd::prelude::*;

verus! {

/// What one character contributes to the escaped form of a string: `<` and
/// `>` become their inert entity equivalents, every other character stands
/// unchanged.
pub open spec fn escape_char(c: char) -> Seq<char> {
    if c == '<' {
        seq!['&', 'l', 't', ';']
    } else if c == '>' {
        seq!['&', 'g', 't', ';']
    } else {
        seq![c]
    }
}

/// The HTML-entity escaping of a whole character sequence: every `<` is
/// replaced by `&lt;` and every `>` by `&gt;`.
pub open spec fn escape_seq(s: Seq<char>) -> Seq<char>
    decreases s.len(),
{
    if s.len() == 0 {
        Seq::empty()
    } else {
        escape_char(s[0]) + escape_seq(s.drop_first())
    }
}

/// Escaping distributes over concatenation.
pub proof fn lemma_escape_seq_add(a: Seq<char>, b: Seq<char>)
    ensures
        escape_seq(a + b) == escape_seq(a) + escape_seq(b),
    decreases a.len(),
{
    if a.len() == 0 {
        assert(a + b =~= b);
        assert(escape_seq(a) + escape_seq(b) =~= escape_seq(b));
    } else {
        assert((a + b).drop_first() =~= a.drop_first() + b);
        lemma_escape_seq_add(a.drop_first(), b);
        assert(escape_char(a[0]) + (escape_seq(a.drop_first()) + escape_seq(b)) =~= (escape_char(
            a[0],
        ) + escape_seq(a.drop_first())) + escape_seq(b));
    }
}

/// Escaping one element sequence is the single character's contribution.
pub proof fn lemma_escape_seq_single(c: char)
    ensures
        escape_seq(seq![c]) == escape_char(c),
{
    assert(seq![c].drop_first() =~= Seq::<char>::empty());
    assert(escape_seq(seq![c]) == escape_char(c) + escape_seq(Seq::<char>::empty()));
    assert(escape_char(c) + escape_seq(Seq::<char>::empty()) =~= escape_char(c));
}

/// No escaped string contains a live angle bracket.
pub proof fn lemma_escape_seq_no_brackets(s: Seq<char>)
    ensures
        forall|i: int|
            0 <= i < escape_seq(s).len() ==> escape_seq(s)[i] != '<' && escape_seq(s)[i] != '>',
    decreases s.len(),
{
    if s.len() > 0 {
        lemma_escape_seq_no_brackets(s.drop_first());
        let head = escape_char(s[0]);
        let rest = escape_seq(s.drop_first());
        assert forall|i: int| 0 <= i < escape_seq(s).len() implies escape_seq(s)[i] != '<'
            && escape_seq(s)[i] != '>' by {
            assert(escape_seq(s) == head + rest);
            if i < head.len() {
                assert(escape_seq(s)[i] == head[i]);
            } else {
                assert(escape_seq(s)[i] == rest[i - head.len()]);
            }
        }
    }
}

/// Escaping a string that holds no angle bracket leaves it unchanged, so
/// already-escaped text is never escaped twice.
pub proof fn lemma_escape_seq_identity(s: Seq<char>)
    requires
        forall|i: int| 0 <= i < s.len() ==> s[i] != '<' && s[i] != '>',
    ensures
        escape_seq(s) == s,
    decreases s.len(),
{
    if s.len() == 0 {
        assert(escape_seq(s) =~= s);
    } else {
        lemma_escape_seq_identity(s.drop_first());
        assert(escape_seq(s) =~= seq![s[0]] + s.drop_first());
        assert(seq![s[0]] + s.drop_first() =~= s);
    }
}

/// Law: escaping is idempotent — escaped text holds no angle bracket, so a
/// second escaping pass leaves it byte-identical.
pub proof fn lemma_escape_idempotent(s: Seq<char>)
    ensures
        escape_seq(escape_seq(s)) == escape_seq(s),
{
    lemma_escape_seq_no_brackets(s);
    lemma_escape_seq_identity(escape_seq(s));
}

/// Replaces every `<` with `&lt;` and every `>` with `&gt;` in `html`.
pub fn escape_text(html: &str) -> (r: String)
    ensures
        r@ == escape_seq(html@),
{
    let n = html.unicode_len();
    let mut r = String::new();
    let mut i: usize = 0;
    while i < n
        invariant
            i <= n,
            n == html@.len(),
            r@ == escape_seq(html@.take(i as int)),
        decreases n - i,
    {
        let c = html.get_char(i);
        if c == '<' {
            r.append("&lt;");
        } else if c == '>' {
            r.append("&gt;");
        } else {
            let piece = html.substring_char(i, i + 1);
            r.append(piece);
        }
        proof {
            let prefix = html@.take(i as int);
            lemma_escape_seq_add(prefix, seq![html@[i as int]]);
            lemma_escape_seq_single(html@[i as int]);
            assert(prefix + seq![html@[i as int]] =~= html@.take(i + 1));
            if html@[i as int] == '<' {
                reveal_strlit("&lt;");
                assert(("&lt;")@ =~= escape_char('<'));
            } else if html@[i as int] == '>' {
                reveal_strlit("&gt;");
                assert(("&gt;")@ =~= escape_char('>'));
            } else {
                assert(html@.subrange(i as int, i + 1) =~= seq![html@[i as int]]);
            }
        }
        i = i + 1;
    }
    proof {
        assert(html@.take(n as int) =~= html@);
    }
    r
}

} // verus!
