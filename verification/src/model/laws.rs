//! What holds of model ids and reasoning efforts.
//!
//! The laws speak of the ids and levels themselves.
use crate::model;
use crate::text;
use vstd::prelude::*;

verus! {

/// The ids of the models that the backend serves.
pub open spec fn is_served(id: Seq<char>) -> bool {
    ||| id == "gpt-6-astra"@
    ||| id == "gpt-5.6-sol"@
    ||| id == "gpt-5.6-terra"@
    ||| id == "gpt-5.6-luna"@
    ||| id == "gpt-5.5"@
    ||| id == "gpt-5.4"@
    ||| id == "gpt-5.4-mini"@
    ||| id == "gpt-5.3-codex-spark"@
    ||| id == "gpt-5.3-codex"@
    ||| id == "gpt-5.2-codex"@
    ||| id == "gpt-5.2"@
    ||| id == "gpt-5.1-codex-max"@
    ||| id == "gpt-5.1-codex-mini"@
    ||| id == "gpt-5.1-codex"@
    ||| id == "gpt-5.1"@
    ||| id == "gpt-5-codex-mini"@
    ||| id == "gpt-5-codex"@
    ||| id == "gpt-5"@
}

/// The levels of effort.
pub open spec fn is_level(e: Seq<char>) -> bool {
    ||| e == "ultra"@
    ||| e == "xhigh"@
    ||| e == "high"@
    ||| e == "medium"@
    ||| e == "low"@
    ||| e == "minimal"@
    ||| e == "max"@
}

/// The models that are known are those that the backend serves.
pub proof fn law_known_models_are_served(id: Seq<char>)
    ensures
        model::is_known(id) <==> is_served(id),
{
    let list = model::KNOWN_MODELS@;
    assert(list[0]@ == "gpt-6-astra"@);
    assert(list[1]@ == "gpt-5.6-sol"@);
    assert(list[2]@ == "gpt-5.6-terra"@);
    assert(list[3]@ == "gpt-5.6-luna"@);
    assert(list[4]@ == "gpt-5.5"@);
    assert(list[5]@ == "gpt-5.4"@);
    assert(list[6]@ == "gpt-5.4-mini"@);
    assert(list[7]@ == "gpt-5.3-codex-spark"@);
    assert(list[8]@ == "gpt-5.3-codex"@);
    assert(list[9]@ == "gpt-5.2-codex"@);
    assert(list[10]@ == "gpt-5.2"@);
    assert(list[11]@ == "gpt-5.1-codex-max"@);
    assert(list[12]@ == "gpt-5.1-codex-mini"@);
    assert(list[13]@ == "gpt-5.1-codex"@);
    assert(list[14]@ == "gpt-5.1"@);
    assert(list[15]@ == "gpt-5-codex-mini"@);
    assert(list[16]@ == "gpt-5-codex"@);
    assert(list[17]@ == "gpt-5"@);
}

/// A model that is served is taken as it is asked for, whatever its case and
/// the white space around it.
pub proof fn law_served_model_is_served(asked: Seq<char>)
    requires
        is_served(text::lower(text::trimmed(asked))),
    ensures
        model::normalized(asked) == text::lower(text::trimmed(asked)),
        model::named_effort(asked) is None,
        model::suffix_effort(asked) is None,
{
    law_known_models_are_served(text::lower(text::trimmed(asked)));
}

/// What stands in a name, in the order in which it is looked for, and the model
/// that it stands for.
pub open spec fn families() -> Seq<(Seq<char>, Seq<char>)> {
    seq![
        ("gpt-5.2-codex"@, "gpt-5.2-codex"@),
        ("gpt-5.3-codex-spark"@, "gpt-5.3-codex-spark"@),
        ("gpt-5.3-codex"@, "gpt-5.3-codex"@),
        ("gpt-5.4-mini"@, "gpt-5.4-mini"@),
        ("gpt-5.4"@, "gpt-5.4"@),
        ("gpt-5.2"@, "gpt-5.2"@),
        ("gpt-5.1-codex-max"@, "gpt-5.1-codex-max"@),
        ("gpt-5.1-codex-mini"@, "gpt-5.1-codex-mini"@),
        ("gpt-5.1-codex"@, "gpt-5.1-codex"@),
        ("gpt-5.1"@, "gpt-5.1"@),
        ("gpt-5.5"@, "gpt-5.5"@),
        ("gpt-5-codex-mini"@, "gpt-5-codex-mini"@),
        ("mini"@, "gpt-5.1-codex-mini"@),
        ("4o"@, "gpt-5.1-codex-mini"@),
        ("codex"@, "gpt-5-codex"@),
    ]
}

/// A name in lower case that is no served model stands for the first family
/// whose name it holds; the families of gpt-6 and gpt-5.6 are told by how it
/// begins, and any other name stands for gpt-5.
pub open spec fn stands_for(id: Seq<char>, m: Seq<char>) -> bool {
    if id.len() == 0 {
        m == "gpt-5"@
    } else if is_served(id) {
        m == id
    } else if id == "gpt-6"@ || text::begins(id, "gpt-6-"@) || text::begins(id, "gpt-6."@) {
        m == "gpt-6-astra"@
    } else if id == "gpt-5.6"@ || text::begins(id, "gpt-5.6-"@) {
        m == "gpt-5.6-sol"@
    } else {
        &&& forall|i: int|
            0 <= i < families().len() && text::has(id, (#[trigger] families()[i]).0) && (forall|
                j: int,
            |
                0 <= j < i ==> !text::has(id, (#[trigger] families()[j]).0)) ==> m
                == families()[i].1
        &&& (forall|j: int|
            0 <= j < families().len() ==> !text::has(id, (#[trigger] families()[j]).0)) ==> m
            == "gpt-5"@
    }
}

/// A name stands for its family, and its effort suffix does not count.
#[verifier::rlimit(40)]
proof fn lemma_family(id: Seq<char>)
    ensures
        stands_for(id, model::family_model(id)),
{
    law_known_models_are_served(id);
    let m = model::family_model(id);
    let f = families();
    assert(f[0].0 == "gpt-5.2-codex"@ && f[0].1 == "gpt-5.2-codex"@);
    assert(f[1].0 == "gpt-5.3-codex-spark"@ && f[1].1 == "gpt-5.3-codex-spark"@);
    assert(f[2].0 == "gpt-5.3-codex"@ && f[2].1 == "gpt-5.3-codex"@);
    assert(f[3].0 == "gpt-5.4-mini"@ && f[3].1 == "gpt-5.4-mini"@);
    assert(f[4].0 == "gpt-5.4"@ && f[4].1 == "gpt-5.4"@);
    assert(f[5].0 == "gpt-5.2"@ && f[5].1 == "gpt-5.2"@);
    assert(f[6].0 == "gpt-5.1-codex-max"@ && f[6].1 == "gpt-5.1-codex-max"@);
    assert(f[7].0 == "gpt-5.1-codex-mini"@ && f[7].1 == "gpt-5.1-codex-mini"@);
    assert(f[8].0 == "gpt-5.1-codex"@ && f[8].1 == "gpt-5.1-codex"@);
    assert(f[9].0 == "gpt-5.1"@ && f[9].1 == "gpt-5.1"@);
    assert(f[10].0 == "gpt-5.5"@ && f[10].1 == "gpt-5.5"@);
    assert(f[11].0 == "gpt-5-codex-mini"@ && f[11].1 == "gpt-5-codex-mini"@);
    assert(f[12].0 == "mini"@ && f[12].1 == "gpt-5.1-codex-mini"@);
    assert(f[13].0 == "4o"@ && f[13].1 == "gpt-5.1-codex-mini"@);
    assert(f[14].0 == "codex"@ && f[14].1 == "gpt-5-codex"@);
}

/// A name that is no served model stands for a family by what is left of it
/// without its effort suffix.
pub proof fn law_other_name_stands_for_its_family(asked: Seq<char>)
    requires
        !is_served(text::lower(text::trimmed(asked))),
    ensures
        stands_for(model::stripped(text::lower(text::trimmed(asked))), model::normalized(asked)),
{
    law_known_models_are_served(text::lower(text::trimmed(asked)));
    lemma_family(model::stripped(text::lower(text::trimmed(asked))));
}

/// A name that ends in a hyphen and a level asks for that level: the suffix is
/// no part of the model, and the level is the effort.
pub proof fn law_suffix_is_the_effort(base: Seq<char>, level: Seq<char>)
    requires
        is_level(level),
        !is_served(text::lower(text::trimmed(base + "-"@ + level))),
        text::lower(text::trimmed(base + "-"@ + level)) == base + "-"@ + level,
    ensures
        model::stripped(base + "-"@ + level) == base,
        model::named_effort(base + "-"@ + level) == Some(level),
        model::suffix_effort(base + "-"@ + level) == (if base.len() > 0 {
            Some(level)
        } else {
            None
        }),
{
    let s = base + "-"@ + level;
    law_known_models_are_served(s);
    lemma_levels();
    let list = model::EFFORT_SUFFIXES@;
    let j = choose|j: int| 0 <= j < 7 && #[trigger] list[j]@ == "-"@ + level;
    assert(s =~= base + list[j]@);
    model::lemma_suffixes(base, j);
    assert(("-"@ + level).skip(1) =~= level);
}

/// Every level has its suffix.
proof fn lemma_levels()
    ensures
        "-"@.len() == 1,
        forall|e: Seq<char>| #[trigger]
            is_level(e) ==> exists|j: int|
                0 <= j < 7 && #[trigger] model::EFFORT_SUFFIXES@[j]@ == "-"@ + e,
{
    let list = model::EFFORT_SUFFIXES@;
    reveal_strlit("-");
    reveal_strlit("ultra");
    reveal_strlit("-ultra");
    assert(list[0]@ =~= "-"@ + "ultra"@);
    reveal_strlit("xhigh");
    reveal_strlit("-xhigh");
    assert(list[1]@ =~= "-"@ + "xhigh"@);
    reveal_strlit("high");
    reveal_strlit("-high");
    assert(list[2]@ =~= "-"@ + "high"@);
    reveal_strlit("medium");
    reveal_strlit("-medium");
    assert(list[3]@ =~= "-"@ + "medium"@);
    reveal_strlit("low");
    reveal_strlit("-low");
    assert(list[4]@ =~= "-"@ + "low"@);
    reveal_strlit("minimal");
    reveal_strlit("-minimal");
    assert(list[5]@ =~= "-"@ + "minimal"@);
    reveal_strlit("max");
    reveal_strlit("-max");
    assert(list[6]@ =~= "-"@ + "max"@);
}

/// An effort is read without regard to case and white space; `none` stands for
/// `low`, and what is no level stands for nothing.
pub proof fn law_effort_is_read(asked: Seq<char>)
    ensures
        ({
            let e = text::lower(text::trimmed(asked));
            &&& is_level(e) ==> model::normalized_effort(asked) == e
            &&& e == "none"@ ==> model::normalized_effort(asked) == "low"@
            &&& !is_level(e) && e != "none"@ ==> model::normalized_effort(asked).len() == 0
        }),
{
    reveal_strlit("");
    reveal_strlit("none");
    reveal_strlit("low");
    reveal_strlit("ultra");
    reveal_strlit("xhigh");
    reveal_strlit("high");
    reveal_strlit("medium");
    reveal_strlit("minimal");
    reveal_strlit("max");
    assert("none"@.len() == 4 && "none"@[0] == 'n');
    assert("ultra"@.len() == 5 && "ultra"@[0] == 'u');
    assert("xhigh"@.len() == 5 && "xhigh"@[0] == 'x');
    assert("high"@.len() == 4 && "high"@[0] == 'h');
    assert("medium"@.len() == 6 && "medium"@[0] == 'm');
    assert("low"@.len() == 3 && "low"@[0] == 'l');
    assert("minimal"@.len() == 7 && "minimal"@[0] == 'm');
    assert("max"@.len() == 3 && "max"@[0] == 'm');
}

/// Who takes which level: the middle ones everyone, the lowest only gpt-5 and
/// gpt-5-codex, `low` all but the small models, and the highest only the newest.
pub open spec fn takes(m: Seq<char>, e: Seq<char>) -> bool {
    if e == "medium"@ || e == "high"@ {
        true
    } else if e == "low"@ {
        m != "gpt-5-codex-mini"@ && m != "gpt-5.1-codex-mini"@
    } else if e == "minimal"@ {
        m == "gpt-5"@ || m == "gpt-5-codex"@
    } else if e == "xhigh"@ {
        m != "gpt-5"@ && m != "gpt-5-codex"@ && m != "gpt-5.1"@ && m != "gpt-5.1-codex"@ && m
            != "gpt-5-codex-mini"@ && m != "gpt-5.1-codex-mini"@
    } else if e == "max"@ {
        m == "gpt-6-astra"@ || m == "gpt-5.6-sol"@ || m == "gpt-5.6-terra"@ || m
            == "gpt-5.6-luna"@
    } else if e == "ultra"@ {
        m == "gpt-6-astra"@ || m == "gpt-5.6-sol"@ || m == "gpt-5.6-terra"@
    } else {
        false
    }
}

/// What is in a list of two.
proof fn lemma_in_2(x0: Seq<char>, x1: Seq<char>, e: Seq<char>)
    ensures
        seq![x0, x1].contains(e) <==> e == x0 || e == x1,
{
    let s = seq![x0, x1];
    assert(s[0] == x0);
    assert(s[1] == x1);
}

/// What is in a list of three.
proof fn lemma_in_3(x0: Seq<char>, x1: Seq<char>, x2: Seq<char>, e: Seq<char>)
    ensures
        seq![x0, x1, x2].contains(e) <==> e == x0 || e == x1 || e == x2,
{
    let s = seq![x0, x1, x2];
    assert(s[0] == x0);
    assert(s[1] == x1);
    assert(s[2] == x2);
}

/// What is in a list of four.
proof fn lemma_in_4(x0: Seq<char>, x1: Seq<char>, x2: Seq<char>, x3: Seq<char>, e: Seq<char>)
    ensures
        seq![x0, x1, x2, x3].contains(e) <==> e == x0 || e == x1 || e == x2 || e == x3,
{
    let s = seq![x0, x1, x2, x3];
    assert(s[0] == x0);
    assert(s[1] == x1);
    assert(s[2] == x2);
    assert(s[3] == x3);
}

/// What is in a list of five.
proof fn lemma_in_5(x0: Seq<char>, x1: Seq<char>, x2: Seq<char>, x3: Seq<char>, x4: Seq<char>, e: Seq<char>)
    ensures
        seq![x0, x1, x2, x3, x4].contains(e) <==> e == x0 || e == x1 || e == x2 || e == x3 || e == x4,
{
    let s = seq![x0, x1, x2, x3, x4];
    assert(s[0] == x0);
    assert(s[1] == x1);
    assert(s[2] == x2);
    assert(s[3] == x3);
    assert(s[4] == x4);
}

/// What is in a list of six.
proof fn lemma_in_6(x0: Seq<char>, x1: Seq<char>, x2: Seq<char>, x3: Seq<char>, x4: Seq<char>, x5: Seq<char>, e: Seq<char>)
    ensures
        seq![x0, x1, x2, x3, x4, x5].contains(e) <==> e == x0 || e == x1 || e == x2 || e == x3 || e == x4 || e == x5,
{
    let s = seq![x0, x1, x2, x3, x4, x5];
    assert(s[0] == x0);
    assert(s[1] == x1);
    assert(s[2] == x2);
    assert(s[3] == x3);
    assert(s[4] == x4);
    assert(s[5] == x5);
}

/// The levels are told apart.
proof fn lemma_levels_apart()
    ensures
        "ultra"@.len() == 5 && "ultra"@[0] == 'u' && "ultra"@[1] == 'l',
        "xhigh"@.len() == 5 && "xhigh"@[0] == 'x' && "xhigh"@[1] == 'h',
        "high"@.len() == 4 && "high"@[0] == 'h' && "high"@[1] == 'i',
        "medium"@.len() == 6 && "medium"@[0] == 'm' && "medium"@[1] == 'e',
        "low"@.len() == 3 && "low"@[0] == 'l' && "low"@[1] == 'o',
        "minimal"@.len() == 7 && "minimal"@[0] == 'm' && "minimal"@[1] == 'i',
        "max"@.len() == 3 && "max"@[0] == 'm' && "max"@[1] == 'a',
{
    reveal_strlit("ultra");
    reveal_strlit("xhigh");
    reveal_strlit("high");
    reveal_strlit("medium");
    reveal_strlit("low");
    reveal_strlit("minimal");
    reveal_strlit("max");
}

/// A served model accepts the levels that it takes, and no others.
pub proof fn law_models_accept_their_levels(m: Seq<char>, e: Seq<char>)
    requires
        is_served(m),
    ensures
        model::allowed_efforts(m) matches Some(list) && (list.contains(e) <==> takes(m, e)),
{
    model::lemma_known_distinct();
    lemma_levels_apart();
    lemma_in_4("minimal"@, "low"@, "medium"@, "high"@, e);
    lemma_in_4("low"@, "medium"@, "high"@, "xhigh"@, e);
    lemma_in_6("low"@, "medium"@, "high"@, "xhigh"@, "max"@, "ultra"@, e);
    lemma_in_5("low"@, "medium"@, "high"@, "xhigh"@, "max"@, e);
    lemma_in_3("low"@, "medium"@, "high"@, e);
    lemma_in_2("medium"@, "high"@, e);
}

/// The effort that a served model gets unasked: none for gpt-5 and gpt-5-codex,
/// high for the spark model, low for the models of gpt-5.1 that are not small
/// and for the two that think longest, and medium for the rest.
pub open spec fn unasked(m: Seq<char>) -> Seq<char> {
    if m == "gpt-5"@ || m == "gpt-5-codex"@ {
        Seq::empty()
    } else if m == "gpt-5.3-codex-spark"@ {
        "high"@
    } else if m == "gpt-5.1"@ || m == "gpt-5.1-codex"@ || m == "gpt-5.1-codex-max"@ || m
        == "gpt-5.6-sol"@ || m == "gpt-6-astra"@ {
        "low"@
    } else {
        "medium"@
    }
}

/// The effort that the backend is asked for is the one that was asked for, where
/// the model takes it, and else the one that the model gets unasked.
pub proof fn law_effort_fits_the_model(asked: Seq<char>, m: Seq<char>)
    requires
        is_served(m),
    ensures
        model::clamped(asked, m) == (if text::trimmed(asked).len() > 0 && takes(
            m,
            text::trimmed(asked),
        ) {
            text::trimmed(asked)
        } else {
            unasked(m)
        }),
{
    law_known_models_are_served(m);
    model::lemma_known_not_empty(m);
    model::lemma_known_distinct();
    law_models_accept_their_levels(m, text::trimmed(asked));
}

} // verus!
