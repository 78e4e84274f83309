//! Third-party names in prompt text.
use crate::text;
use vstd::prelude::*;

pub mod laws;

verus! {

/// Names that become "Codex" wherever they appear in prompt or message text,
/// in the order in which they are replaced.
pub const NAMES_TO_REPLACE: [&'static str; 8] = [
    "Zed",
    "Cline",
    "Roo",
    "GitHub Copilot",
    "Copilot",
    "Cursor",
    "Microsoft",
    "Copilot",
];

/// `s` after the replacements of the first `n` names.
pub open spec fn replaced_names(s: Seq<char>, n: nat) -> Seq<char>
    decreases n,
{
    if n == 0 {
        s
    } else {
        text::replaced(
            replaced_names(s, (n - 1) as nat),
            NAMES_TO_REPLACE@[n - 1]@,
            "Codex"@,
        )
    }
}

/// `s` with every listed name replaced by "Codex".
pub open spec fn codex_named(s: Seq<char>) -> Seq<char> {
    replaced_names(s, 8)
}

/// What `names` holds, letter by letter.
proof fn reveal_names()
    ensures
        "Codex"@ == seq!['C', 'o', 'd', 'e', 'x'],
        NAMES_TO_REPLACE@[0]@ == seq!['Z', 'e', 'd'],
        NAMES_TO_REPLACE@[1]@ == seq!['C', 'l', 'i', 'n', 'e'],
        NAMES_TO_REPLACE@[2]@ == seq!['R', 'o', 'o'],
        NAMES_TO_REPLACE@[3]@ == seq![
            'G',
            'i',
            't',
            'H',
            'u',
            'b',
            ' ',
            'C',
            'o',
            'p',
            'i',
            'l',
            'o',
            't',
        ],
        NAMES_TO_REPLACE@[4]@ == seq!['C', 'o', 'p', 'i', 'l', 'o', 't'],
        NAMES_TO_REPLACE@[5]@ == seq!['C', 'u', 'r', 's', 'o', 'r'],
        NAMES_TO_REPLACE@[6]@ == seq!['M', 'i', 'c', 'r', 'o', 's', 'o', 'f', 't'],
        NAMES_TO_REPLACE@[7]@ == seq!['C', 'o', 'p', 'i', 'l', 'o', 't'],
{
    reveal_strlit("Codex");
    reveal_strlit("Zed");
    reveal_strlit("Cline");
    reveal_strlit("Roo");
    reveal_strlit("GitHub Copilot");
    reveal_strlit("Copilot");
    reveal_strlit("Cursor");
    reveal_strlit("Microsoft");
    assert("Codex"@ =~= seq!['C', 'o', 'd', 'e', 'x']);
    assert("Zed"@ =~= seq!['Z', 'e', 'd']);
    assert("Cline"@ =~= seq!['C', 'l', 'i', 'n', 'e']);
    assert("Roo"@ =~= seq!['R', 'o', 'o']);
    assert("GitHub Copilot"@ =~= seq![
        'G',
        'i',
        't',
        'H',
        'u',
        'b',
        ' ',
        'C',
        'o',
        'p',
        'i',
        'l',
        'o',
        't',
    ]);
    assert("Copilot"@ =~= seq!['C', 'o', 'p', 'i', 'l', 'o', 't']);
    assert("Cursor"@ =~= seq!['C', 'u', 'r', 's', 'o', 'r']);
    assert("Microsoft"@ =~= seq!['M', 'i', 'c', 'r', 'o', 's', 'o', 'f', 't']);
}

/// `input` with every listed name replaced by "Codex".
pub fn replace_names(input: &str) -> (r: String)
    ensures
        r@ == codex_named(input@),
{
    let mut out: String = input.to_owned();
    let mut i: usize = 0;
    while i < 8
        invariant
            i <= 8,
            out@ == replaced_names(input@, i as nat),
        decreases 8 - i,
    {
        proof {
            reveal_names();
        }
        out = text::replace(out.as_str(), NAMES_TO_REPLACE[i], "Codex");
        i += 1;
    }
    out
}

/// Placing `to` over `q` at offset `m`, one letter differs where they overlap.
pub open spec fn differs_at(q: Seq<char>, to: Seq<char>, m: int, x: int) -> bool {
    0 <= x < to.len() && 0 <= m + x < q.len() && q[m + x] != to[x]
}

/// `to` does not fit over `q` at offset `m`.
pub open spec fn differs(q: Seq<char>, to: Seq<char>, m: int) -> bool {
    exists|x: int| differs_at(q, to, m, x)
}

/// No occurrence of `q` can overlap an occurrence of `to`.
pub open spec fn never_overlaps(q: Seq<char>, to: Seq<char>) -> bool {
    forall|m: int| -to.len() < m < q.len() ==> #[trigger] differs(q, to, m)
}

/// A tail of `q` that the replaced text begins with begins the text itself.
proof fn lemma_begins_back(s: Seq<char>, p: Seq<char>, to: Seq<char>, q: Seq<char>, j: int)
    requires
        p.len() > 0,
        to.len() > 0,
        0 <= j < q.len(),
        never_overlaps(q, to),
        text::begins(text::replaced(s, p, to), q.skip(j)),
    ensures
        text::begins(s, q.skip(j)),
    decreases s.len(),
{
    let r = text::replaced(s, p, to);
    let w = q.skip(j);
    assert(r.subrange(0, w.len() as int) == w);
    if s.len() == 0 {
    } else if text::begins(s, p) {
        assert(differs(q, to, j));
        let x = choose|x: int| differs_at(q, to, j, x);
        assert(w[x] == q[j + x]);
        assert(r.subrange(0, w.len() as int)[x] == r[x]);
        assert(r[x] == to[x]);
    } else {
        let rest = text::replaced(s.skip(1), p, to);
        assert(r[0] == s[0]);
        assert(r.subrange(0, w.len() as int)[0] == r[0]);
        if w.len() > 1 {
            let w2 = q.skip(j + 1);
            assert(w2 =~= w.skip(1));
            assert(rest.subrange(0, w2.len() as int) =~= w2) by {
                assert forall|k: int| 0 <= k < w2.len() implies rest[k] == w2[k] by {
                    assert(rest[k] == r[k + 1]);
                    assert(r.subrange(0, w.len() as int)[k + 1] == r[k + 1]);
                }
            }
            lemma_begins_back(s.skip(1), p, to, q, j + 1);
            assert(s.skip(1).subrange(0, w2.len() as int) == w2);
            assert(s.subrange(0, w.len() as int) =~= w) by {
                assert forall|k: int| 0 <= k < w.len() implies s[k] == w[k] by {
                    if k > 0 {
                        assert(s.skip(1).subrange(0, w2.len() as int)[k - 1] == s[k]);
                    }
                }
            }
        } else {
            assert(s.subrange(0, 1) =~= w);
        }
    }
}

/// What stands in the replaced text stood in the text before, unless it is
/// the pattern itself, which is gone.
proof fn lemma_found_back(s: Seq<char>, p: Seq<char>, to: Seq<char>, q: Seq<char>, i: int)
    requires
        p.len() > 0,
        to.len() > 0,
        q.len() > 0,
        never_overlaps(q, to),
        text::found_at(text::replaced(s, p, to), q, i),
    ensures
        text::has(s, q),
        q != p,
    decreases s.len(),
{
    let r = text::replaced(s, p, to);
    if s.len() == 0 {
    } else if text::begins(s, p) {
        let n = p.len() as int;
        let rest = text::replaced(s.skip(n), p, to);
        if i >= to.len() {
            assert(rest.subrange(i - to.len(), i - to.len() + q.len()) =~= r.subrange(
                i,
                i + q.len(),
            ));
            lemma_found_back(s.skip(n), p, to, q, i - to.len());
            let k = choose|k: int| text::found_at(s.skip(n), q, k);
            assert(s.subrange(k + n, k + n + q.len()) =~= s.skip(n).subrange(k, k + q.len()));
            assert(text::found_at(s, q, k + n));
        } else {
            let m = -i;
            assert(differs(q, to, m));
            let x = choose|x: int| differs_at(q, to, m, x);
            assert(r.subrange(i, i + q.len())[x - i] == r[x]);
            assert(r[x] == to[x]);
        }
    } else if i == 0 {
        assert(q.skip(0) =~= q);
        lemma_begins_back(s, p, to, q, 0);
        assert(text::found_at(s, q, 0));
    } else {
        let rest = text::replaced(s.skip(1), p, to);
        assert(rest.subrange(i - 1, i - 1 + q.len()) =~= r.subrange(i, i + q.len()));
        lemma_found_back(s.skip(1), p, to, q, i - 1);
        let k = choose|k: int| text::found_at(s.skip(1), q, k);
        assert(s.subrange(k + 1, k + 1 + q.len()) =~= s.skip(1).subrange(k, k + q.len()));
        assert(text::found_at(s, q, k + 1));
    }
}

/// No listed name can overlap the word "Codex".
proof fn lemma_names_never_overlap(n: int)
    requires
        0 <= n < 8,
    ensures
        NAMES_TO_REPLACE@[n]@.len() > 0,
        never_overlaps(NAMES_TO_REPLACE@[n]@, "Codex"@),
{
    reveal_names();
    let q = NAMES_TO_REPLACE@[n]@;
    let to = "Codex"@;
    assert forall|m: int| -to.len() < m < q.len() implies #[trigger] differs(q, to, m) by {
        if m < 0 {
            assert(differs_at(q, to, m, -m));
        } else if m == 0 {
            assert(differs_at(q, to, 0, 0) || differs_at(q, to, 0, 1) || differs_at(q, to, 0, 2));
        } else if n == 3 && m == 7 {
            assert(differs_at(q, to, 7, 2));
        } else {
            assert(differs_at(q, to, m, 0));
        }
    }
}

/// No listed name is empty.
pub proof fn lemma_listed_name_not_empty(n: int)
    requires
        0 <= n < 8,
    ensures
        NAMES_TO_REPLACE@[n]@.len() > 0,
{
    reveal_names();
}

/// None of the first `n` names is left after the first `n` replacements.
proof fn lemma_replaced_names_gone(s: Seq<char>, n: nat, k: int)
    requires
        n <= 8,
        0 <= k < n,
    ensures
        !text::has(replaced_names(s, n), NAMES_TO_REPLACE@[k]@),
    decreases n,
{
    let q = NAMES_TO_REPLACE@[k]@;
    let p = NAMES_TO_REPLACE@[n - 1]@;
    let before = replaced_names(s, (n - 1) as nat);
    lemma_names_never_overlap(k);
    lemma_names_never_overlap(n - 1);
    reveal_names();
    if text::has(replaced_names(s, n), q) {
        let i = choose|i: int| text::found_at(replaced_names(s, n), q, i);
        lemma_found_back(before, p, "Codex"@, q, i);
        if k < n - 1 {
            lemma_replaced_names_gone(s, (n - 1) as nat, k);
        }
    }
}

/// No listed name is left in the result.
pub proof fn law_no_name_is_left(s: Seq<char>, k: int)
    requires
        0 <= k < 8,
    ensures
        !text::has(codex_named(s), NAMES_TO_REPLACE@[k]@),
{
    lemma_replaced_names_gone(s, 8, k);
}

/// Replacing what does not occur changes nothing.
proof fn lemma_replaced_absent(s: Seq<char>, p: Seq<char>, to: Seq<char>)
    requires
        p.len() > 0,
        !text::has(s, p),
    ensures
        text::replaced(s, p, to) == s,
    decreases s.len(),
{
    if s.len() > 0 {
        assert(!text::found_at(s, p, 0));
        let t = s.skip(1);
        if text::has(t, p) {
            let i = choose|i: int| text::found_at(t, p, i);
            assert(s.subrange(i + 1, i + 1 + p.len()) =~= t.subrange(i, i + p.len()));
            assert(text::found_at(s, p, i + 1));
        }
        lemma_replaced_absent(t, p, to);
        assert(seq![s[0]] + t =~= s);
    }
}

/// A text without listed names is left as it is.
proof fn lemma_replaced_names_absent(s: Seq<char>, n: nat)
    requires
        n <= 8,
        forall|k: int| 0 <= k < 8 ==> !text::has(s, (#[trigger] NAMES_TO_REPLACE@[k])@),
    ensures
        replaced_names(s, n) == s,
    decreases n,
{
    if n > 0 {
        lemma_replaced_names_absent(s, (n - 1) as nat);
        lemma_names_never_overlap(n - 1);
        assert(!text::has(s, NAMES_TO_REPLACE@[n - 1]@));
        lemma_replaced_absent(s, NAMES_TO_REPLACE@[n - 1]@, "Codex"@);
    }
}

/// A text without any listed name is left as it is.
pub proof fn law_other_text_is_kept(s: Seq<char>)
    requires
        forall|k: int| 0 <= k < 8 ==> !text::has(s, (#[trigger] NAMES_TO_REPLACE@[k])@),
    ensures
        codex_named(s) == s,
{
    lemma_replaced_names_absent(s, 8);
}

/// A character that the pattern lacks parts the text: what stands before and
/// after it is replaced on its own.
proof fn lemma_replaced_in_two(a: Seq<char>, c: char, b: Seq<char>, p: Seq<char>, to: Seq<char>)
    requires
        p.len() > 0,
        !p.contains(c),
    ensures
        text::replaced(a + seq![c] + b, p, to) == text::replaced(a, p, to) + seq![c]
            + text::replaced(b, p, to),
    decreases a.len(),
{
    let s = a + seq![c] + b;
    if text::begins(s, p) && p.len() > a.len() {
        assert(s.subrange(0, p.len() as int)[a.len() as int] == c);
        assert(p[a.len() as int] == c);
    }
    if a.len() == 0 {
        assert(s.skip(1) =~= b);
        assert(text::replaced(a, p, to) =~= Seq::<char>::empty());
        assert(text::replaced(s, p, to) =~= seq![c] + text::replaced(b, p, to));
    } else if text::begins(s, p) {
        let n = p.len() as int;
        assert(a.subrange(0, n) =~= s.subrange(0, n));
        assert(s.skip(n) =~= a.skip(n) + seq![c] + b);
        lemma_replaced_in_two(a.skip(n), c, b, p, to);
        assert(text::replaced(s, p, to) =~= text::replaced(a, p, to) + seq![c] + text::replaced(
            b,
            p,
            to,
        ));
    } else {
        if text::begins(a, p) {
            assert(s.subrange(0, p.len() as int) =~= a.subrange(0, p.len() as int));
        }
        assert(s.skip(1) =~= a.skip(1) + seq![c] + b);
        lemma_replaced_in_two(a.skip(1), c, b, p, to);
        assert(text::replaced(s, p, to) =~= text::replaced(a, p, to) + seq![c] + text::replaced(
            b,
            p,
            to,
        ));
    }
}

/// The first replacements part a text at a line break.
proof fn lemma_lines_apart(a: Seq<char>, b: Seq<char>, n: nat)
    requires
        n <= 8,
    ensures
        replaced_names(a + seq!['\n'] + b, n) == replaced_names(a, n) + seq!['\n']
            + replaced_names(b, n),
    decreases n,
{
    if n > 0 {
        reveal_names();
        lemma_lines_apart(a, b, (n - 1) as nat);
        lemma_replaced_in_two(
            replaced_names(a, (n - 1) as nat),
            '\n',
            replaced_names(b, (n - 1) as nat),
            NAMES_TO_REPLACE@[n - 1]@,
            "Codex"@,
        );
    }
}

/// Lines are replaced each on its own: no listed name reaches over a line break.
pub proof fn law_lines_are_replaced_apart(a: Seq<char>, b: Seq<char>)
    ensures
        codex_named(a + seq!['\n'] + b) == codex_named(a) + seq!['\n'] + codex_named(b),
{
    lemma_lines_apart(a, b, 8);
}

/// Replacing twice is replacing once.
pub proof fn law_replacing_is_idempotent(s: Seq<char>)
    ensures
        codex_named(codex_named(s)) == codex_named(s),
{
    assert forall|k: int| 0 <= k < 8 implies !text::has(
        codex_named(s),
        (#[trigger] NAMES_TO_REPLACE@[k])@,
    ) by {
        law_no_name_is_left(s, k);
    }
    law_other_text_is_kept(codex_named(s));
}

} // verus!
