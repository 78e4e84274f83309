//! Which names are replaced, and by what.
use crate::names;
use crate::text;
use vstd::prelude::*;

verus! {

/// A name of another product or of its vendor.
pub open spec fn is_foreign(name: Seq<char>) -> bool {
    ||| name == "Zed"@
    ||| name == "Cline"@
    ||| name == "Roo"@
    ||| name == "GitHub Copilot"@
    ||| name == "Copilot"@
    ||| name == "Cursor"@
    ||| name == "Microsoft"@
}

/// A text in which no two neighbours are the first two letters of the pattern
/// does not have the pattern.
proof fn lemma_lacks(s: Seq<char>, pat: Seq<char>)
    requires
        pat.len() >= 2,
        forall|i: int|
            0 <= i && i + pat.len() <= s.len() && #[trigger] s[i] == pat[0] ==> s[i + 1] != pat[1],
    ensures
        !text::has(s, pat),
{
    if text::has(s, pat) {
        let i = choose|i: int| text::found_at(s, pat, i);
        let sub = s.subrange(i, i + pat.len());
        assert(sub == pat);
        assert(sub[0] == s[i]);
        assert(sub[1] == s[i + 1]);
    }
}

/// The word "Codex" has no foreign name in it.
proof fn lemma_codex_is_kept()
    ensures
        names::codex_named("Codex"@) == "Codex"@,
{
    names::reveal_names();
    assert forall|k: int| 0 <= k < 8 implies !text::has(
        "Codex"@,
        (#[trigger] names::NAMES_TO_REPLACE@[k])@,
    ) by {
        lemma_lacks("Codex"@, names::NAMES_TO_REPLACE@[k]@);
    }
    names::law_other_text_is_kept("Codex"@);
}

/// A listed name that has no earlier one in it becomes "Codex".
proof fn lemma_listed_name(k: int)
    requires
        0 <= k < 7,
    ensures
        names::codex_named(names::NAMES_TO_REPLACE@[k]@) == "Codex"@,
{
    names::reveal_names();
    let s = names::NAMES_TO_REPLACE@[k]@;
    assert forall|j: int| 0 <= j < k implies !text::has(
        s,
        (#[trigger] names::NAMES_TO_REPLACE@[j])@,
    ) by {
        lemma_lacks(s, names::NAMES_TO_REPLACE@[j]@);
    }
    lemma_kept_so_far(s, k as nat);
    assert(names::replaced_names(s, (k + 1) as nat) == "Codex"@) by {
        assert(s.subrange(0, s.len() as int) =~= s);
        assert(s.skip(s.len() as int) =~= Seq::<char>::empty());
        reveal_with_fuel(text::replaced, 2);
        assert("Codex"@ + Seq::<char>::empty() =~= "Codex"@);
    }
    lemma_codex_from_here((k + 1) as nat, s);
}

/// Names that do not occur change nothing.
proof fn lemma_kept_so_far(s: Seq<char>, n: nat)
    requires
        n <= 8,
        forall|j: int|
            0 <= j < n ==> !text::has(s, (#[trigger] names::NAMES_TO_REPLACE@[j])@),
    ensures
        names::replaced_names(s, n) == s,
    decreases n,
{
    if n > 0 {
        lemma_kept_so_far(s, (n - 1) as nat);
        let name = names::NAMES_TO_REPLACE@[n - 1];
        names::lemma_listed_name_not_empty(n - 1);
        names::lemma_replaced_absent(s, name@, "Codex"@);
    }
}

/// What is "Codex" after some names is "Codex" after all.
proof fn lemma_codex_from_here(n: nat, s: Seq<char>)
    requires
        n <= 8,
        names::replaced_names(s, n) == "Codex"@,
    ensures
        names::codex_named(s) == "Codex"@,
    decreases 8 - n,
{
    if n < 8 {
        names::reveal_names();
        let name = names::NAMES_TO_REPLACE@[n as int];
        lemma_lacks("Codex"@, name@);
        names::lemma_listed_name_not_empty(n as int);
        names::lemma_replaced_absent("Codex"@, name@, "Codex"@);
        lemma_codex_from_here(n + 1, s);
    }
}

/// Where the foreign names stand in the list.
proof fn lemma_place(name: Seq<char>) -> (k: int)
    requires
        is_foreign(name),
    ensures
        0 <= k < 7,
        name == names::NAMES_TO_REPLACE@[k]@,
{
    if name == "Zed"@ {
        0
    } else if name == "Cline"@ {
        1
    } else if name == "Roo"@ {
        2
    } else if name == "GitHub Copilot"@ {
        3
    } else if name == "Copilot"@ {
        4
    } else if name == "Cursor"@ {
        5
    } else {
        6
    }
}

/// No foreign name is left in any text.
pub proof fn law_no_foreign_name_is_left(s: Seq<char>, name: Seq<char>)
    requires
        is_foreign(name),
    ensures
        !text::has(names::codex_named(s), name),
{
    let k = lemma_place(name);
    names::law_no_name_is_left(s, k);
}

/// A text without a foreign name is kept as it is, every character of it.
pub proof fn law_text_without_foreign_names_is_kept(s: Seq<char>)
    requires
        forall|name: Seq<char>| #[trigger] is_foreign(name) ==> !text::has(s, name),
    ensures
        names::codex_named(s) == s,
{
    assert forall|k: int| 0 <= k < 8 implies !text::has(
        s,
        (#[trigger] names::NAMES_TO_REPLACE@[k])@,
    ) by {
        assert(is_foreign(names::NAMES_TO_REPLACE@[k]@));
    }
    names::law_other_text_is_kept(s);
}

/// A foreign name on a line of its own becomes "Codex", whatever stands before
/// and after that line.
pub proof fn law_foreign_name_becomes_codex(a: Seq<char>, name: Seq<char>, b: Seq<char>)
    requires
        is_foreign(name),
    ensures
        names::codex_named(name) == "Codex"@,
        names::codex_named(a + seq!['\n'] + (name + seq!['\n'] + b)) == names::codex_named(a)
            + seq!['\n'] + ("Codex"@ + seq!['\n'] + names::codex_named(b)),
{
    let k = lemma_place(name);
    lemma_listed_name(k);
    names::law_lines_are_replaced_apart(a, name + seq!['\n'] + b);
    names::law_lines_are_replaced_apart(name, b);
}

} // verus!
