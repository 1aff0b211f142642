use vstd::prelude::*;

verus! {

/// The words joined in order, with one space between neighbours.
pub open spec fn join_view(ws: Seq<Seq<char>>) -> Seq<char>
    decreases ws.len(),
{
    if ws.len() == 0 {
        Seq::empty()
    } else if ws.len() == 1 {
        ws[0]
    } else {
        ws[0] + seq![' '] + join_view(ws.skip(1))
    }
}

/// `text` with every occurrence of `pattern` replaced by `subst`: the scan
/// runs left to right and matches do not overlap, as `str::replace` does it.
pub open spec fn replaced(text: Seq<char>, pattern: Seq<char>, subst: Seq<char>) -> Seq<char>
    decreases text.len(),
{
    if pattern.len() == 0 || text.len() == 0 {
        text
    } else if pattern.len() <= text.len() && text.subrange(0, pattern.len() as int) == pattern {
        subst + replaced(text.skip(pattern.len() as int), pattern, subst)
    } else {
        seq![text[0]] + replaced(text.skip(1), pattern, subst)
    }
}

/// Whether `pattern` occurs anywhere in `text`.
pub open spec fn contains_seq(text: Seq<char>, pattern: Seq<char>) -> bool {
    exists|i: int|
        0 <= i && i + pattern.len() <= text.len() && #[trigger] text.subrange(
            i,
            i + pattern.len(),
        ) == pattern
}

/// A template in which the pattern never occurs is forwarded unmodified.
pub proof fn lemma_replace_absent(text: Seq<char>, pattern: Seq<char>, subst: Seq<char>)
    requires
        pattern.len() > 0,
        !contains_seq(text, pattern),
    ensures
        replaced(text, pattern, subst) == text,
    decreases text.len(),
{
    if text.len() == 0 {
    } else {
        if pattern.len() <= text.len() && text.subrange(0, pattern.len() as int) == pattern {
            assert(contains_seq(text, pattern)) by {
                assert(text.subrange(0, 0 + pattern.len() as int) == pattern);
            }
        }
        assert forall|i: int|
            0 <= i && i + pattern.len() <= text.skip(1).len() implies #[trigger] text.skip(
            1,
        ).subrange(i, i + pattern.len()) != pattern by {
            assert(text.skip(1).subrange(i, i + pattern.len() as int) =~= text.subrange(
                i + 1,
                i + 1 + pattern.len(),
            ));
            if text.subrange(i + 1, i + 1 + pattern.len() as int) == pattern {
                assert(contains_seq(text, pattern));
            }
        }
        lemma_replace_absent(text.skip(1), pattern, subst);
        assert(seq![text[0]] + text.skip(1) =~= text);
    }
}

/// Substitution rewrites a template around one placeholder occurrence: where
/// the pattern first matches right after a prefix `a`, the prefix is kept
/// unchanged, the occurrence becomes `subst`, and the rest is handled alike.
pub proof fn lemma_replaced_decompose(
    a: Seq<char>,
    b: Seq<char>,
    pattern: Seq<char>,
    subst: Seq<char>,
)
    requires
        pattern.len() > 0,
        forall|i: int|
            0 <= i < a.len() ==> #[trigger] (a + pattern + b).subrange(i, i + pattern.len())
                != pattern,
    ensures
        replaced(a + pattern + b, pattern, subst) == a + subst + replaced(b, pattern, subst),
    decreases a.len(),
{
    let t = a + pattern + b;
    if a.len() == 0 {
        assert(t.subrange(0, pattern.len() as int) =~= pattern);
        assert(t.skip(pattern.len() as int) =~= b);
        assert(subst + replaced(b, pattern, subst) =~= a + subst + replaced(b, pattern, subst));
    } else {
        assert(t.subrange(0, pattern.len() as int) != pattern) by {
            assert(t.subrange(0, 0 + pattern.len() as int) != pattern);
        }
        let a1 = a.skip(1);
        assert(t.skip(1) =~= a1 + pattern + b);
        assert forall|i: int|
            0 <= i < a1.len() implies #[trigger] (a1 + pattern + b).subrange(
            i,
            i + pattern.len(),
        ) != pattern by {
            assert((a1 + pattern + b).subrange(i, i + pattern.len() as int) =~= t.subrange(
                i + 1,
                i + 1 + pattern.len(),
            ));
            assert(t.subrange(i + 1, i + 1 + pattern.len() as int) != pattern);
        }
        lemma_replaced_decompose(a1, b, pattern, subst);
        assert(replaced(t, pattern, subst) == seq![t[0]] + replaced(t.skip(1), pattern, subst));
        assert(seq![t[0]] + (a1 + subst + replaced(b, pattern, subst)) =~= a + subst + replaced(
            b,
            pattern,
            subst,
        ));
    }
}

/// Whether `pattern` matches `text` exactly at character position `at`.
fn matches_at(text: &str, at: usize, pattern: &str) -> (r: bool)
    requires
        at + pattern@.len() <= text@.len() <= usize::MAX,
    ensures
        r == (text@.subrange(at as int, at as int + pattern@.len()) == pattern@),
{
    let m = pattern.unicode_len();
    let mut j: usize = 0;
    while j < m
        invariant
            m == pattern@.len(),
            at + m <= text@.len() <= usize::MAX,
            0 <= j <= m,
            forall|k: int| 0 <= k < j ==> text@[at + k] == pattern@[k],
        decreases m - j,
    {
        if text.get_char(at + j) != pattern.get_char(j) {
            proof {
                assert(text@.subrange(at as int, at as int + pattern@.len())[j as int]
                    == text@[at + j]);
            }
            return false;
        }
        j += 1;
    }
    proof {
        assert(text@.subrange(at as int, at as int + pattern@.len()) =~= pattern@);
    }
    true
}

/// `text` with every occurrence of `pattern` replaced by `subst`, scanning
/// left to right with non-overlapping matches.
pub fn replace_all(text: &str, pattern: &str, subst: &str) -> (r: String)
    requires
        pattern@.len() > 0,
    ensures
        r@ == replaced(text@, pattern@, subst@),
{
    let n = text.unicode_len();
    let m = pattern.unicode_len();
    let mut out = String::new();
    let mut i: usize = 0;
    proof {
        assert(text@.skip(0) =~= text@);
    }
    while i < n
        invariant
            n == text@.len(),
            m == pattern@.len(),
            m > 0,
            0 <= i <= n,
            replaced(text@, pattern@, subst@) == out@ + replaced(
                text@.skip(i as int),
                pattern@,
                subst@,
            ),
        decreases n - i,
    {
        let ghost rest = text@.skip(i as int);
        if m <= n - i && matches_at(text, i, pattern) {
            out.append(subst);
            proof {
                assert(rest.subrange(0, pattern@.len() as int) =~= text@.subrange(
                    i as int,
                    i as int + pattern@.len(),
                ));
                assert(rest.skip(m as int) =~= text@.skip(i as int + m as int));
            }
            i += m;
        } else {
            let piece = text.substring_char(i, i + 1);
            out.append(piece);
            proof {
                if m <= n - i {
                    assert(rest.subrange(0, pattern@.len() as int) =~= text@.subrange(
                        i as int,
                        i as int + pattern@.len(),
                    ));
                }
                assert(piece@ =~= seq![text@[i as int]]);
                assert(rest[0] == text@[i as int]);
                assert(rest.skip(1) =~= text@.skip(i as int + 1));
            }
            i += 1;
        }
    }
    proof {
        assert(text@.skip(n as int) =~= Seq::<char>::empty());
    }
    out
}

/// The joined command-line words: one space between neighbours, nothing else.
pub fn join_words(words: &Vec<String>) -> (r: String)
    ensures
        r@ == join_view(words.deep_view()),
{
    let ghost ws = words.deep_view();
    let mut out = String::new();
    let mut k: usize = 0;
    proof {
        reveal_strlit(" ");
    }
    while k < words.len()
        invariant
            ws == words.deep_view(),
            0 <= k <= words@.len(),
            out@ == join_view(ws.take(k as int)),
        decreases words@.len() - k,
    {
        if k > 0 {
            out.append(" ");
        }
        out.append(words[k].as_str());
        proof {
            reveal_strlit(" ");
            assert(ws[k as int] == words@[k as int]@);
            if k > 0 {
                lemma_join_snoc(ws, k as int);
                assert(" "@ =~= seq![' ']);
            } else {
                assert(ws.take(1) =~= seq![ws[0]]);
            }
        }
        k += 1;
    }
    proof {
        assert(ws.take(words@.len() as int) =~= ws);
    }
    out
}

/// Appending one more word to a non-empty join adds a space and the word.
proof fn lemma_join_snoc(ws: Seq<Seq<char>>, k: int)
    requires
        1 <= k < ws.len(),
    ensures
        join_view(ws.take(k + 1)) == join_view(ws.take(k)) + seq![' '] + ws[k],
    decreases k,
{
    let a = ws.take(k + 1);
    if k == 1 {
        assert(a.skip(1) =~= seq![ws[1]]);
        assert(ws.take(1) =~= seq![ws[0]]);
        assert(join_view(a) == a[0] + seq![' '] + join_view(a.skip(1)));
    } else {
        lemma_join_snoc(ws.skip(1), k - 1);
        assert(ws.skip(1).take(k) =~= ws.take(k + 1).skip(1));
        assert(ws.skip(1).take(k - 1) =~= ws.take(k).skip(1));
        assert(join_view(ws.take(k + 1)) == ws[0] + seq![' '] + join_view(ws.take(k + 1).skip(1)));
        assert(join_view(ws.take(k)) == ws[0] + seq![' '] + join_view(ws.take(k).skip(1)));
        assert(ws.skip(1)[k - 1] == ws[k]);
        assert(ws[0] + seq![' '] + (join_view(ws.take(k).skip(1)) + seq![' '] + ws[k]) =~= (ws[0]
            + seq![' '] + join_view(ws.take(k).skip(1))) + seq![' '] + ws[k]);
    }
}

/// The template with every occurrence of the placeholder token `{input}`
/// replaced by the joined input words.
pub fn fill_template(template: &str, input: &str) -> (r: String)
    ensures
        r@ == replaced(template@, "{input}"@, input@),
{
    proof {
        reveal_strlit("{input}");
    }
    replace_all(template, "{input}", input)
}

} // verus!
