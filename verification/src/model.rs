//! Model ids and reasoning efforts.
//!
//! A requested model id may carry a `-<effort>` suffix and may name a variant
//! that the backend does not serve. [`normalize_model`] maps it to a known id,
//! [`effort_suffix`] reads the suffix, and
//! [`clamp_reasoning_effort_for_model`] keeps an effort within what a model
//! accepts.
use crate::text;
use vstd::prelude::*;

pub mod laws;

verus! {

pub const GPT5: &'static str = "gpt-5";

pub const GPT5_CODEX: &'static str = "gpt-5-codex";

pub const GPT5_1: &'static str = "gpt-5.1";

pub const GPT5_1_CODEX: &'static str = "gpt-5.1-codex";

pub const GPT5_1_CODEX_MAX: &'static str = "gpt-5.1-codex-max";

pub const GPT5_2: &'static str = "gpt-5.2";

pub const GPT5_4: &'static str = "gpt-5.4";

pub const GPT5_2_CODEX: &'static str = "gpt-5.2-codex";

pub const GPT5_3_CODEX: &'static str = "gpt-5.3-codex";

pub const GPT5_3_CODEX_SPARK: &'static str = "gpt-5.3-codex-spark";

pub const GPT5_5: &'static str = "gpt-5.5";

pub const GPT5_6_SOL: &'static str = "gpt-5.6-sol";

pub const GPT5_6_TERRA: &'static str = "gpt-5.6-terra";

pub const GPT5_6_LUNA: &'static str = "gpt-5.6-luna";

pub const GPT6_ASTRA: &'static str = "gpt-6-astra";

pub const GPT5_CODEX_MINI: &'static str = "gpt-5-codex-mini";

pub const GPT5_1_CODEX_MINI: &'static str = "gpt-5.1-codex-mini";

pub const GPT5_4_MINI: &'static str = "gpt-5.4-mini";

/// Every model id that the proxy knows.
///
/// [`normalize_model`] consults this list before it strips an effort suffix:
/// `gpt-5.1-codex-max` ends in `-max`, which is also a reasoning level, and
/// stripping first would serve a weaker model than the caller asked for.
pub const KNOWN_MODELS: [&'static str; 18] = [
    GPT6_ASTRA,
    GPT5_6_SOL,
    GPT5_6_TERRA,
    GPT5_6_LUNA,
    GPT5_5,
    GPT5_4,
    GPT5_4_MINI,
    GPT5_3_CODEX_SPARK,
    GPT5_3_CODEX,
    GPT5_2_CODEX,
    GPT5_2,
    GPT5_1_CODEX_MAX,
    GPT5_1_CODEX_MINI,
    GPT5_1_CODEX,
    GPT5_1,
    GPT5_CODEX_MINI,
    GPT5_CODEX,
    GPT5,
];

/// The effort suffixes, in the order in which they are tried.
pub const EFFORT_SUFFIXES: [&'static str; 7] = [
    "-ultra",
    "-xhigh",
    "-high",
    "-medium",
    "-low",
    "-minimal",
    "-max",
];

/// `id` is a model id that the proxy knows.
pub open spec fn is_known(id: Seq<char>) -> bool {
    exists|i: int| 0 <= i < 18 && (#[trigger] KNOWN_MODELS@[i])@ == id
}

/// The known model with this id.
pub fn exact_model(id: &str) -> (r: Option<&'static str>)
    ensures
        match r {
            Some(known) => is_known(id@) && known@ == id@,
            None => !is_known(id@),
        },
{
    let mut i: usize = 0;
    while i < 18
        invariant
            i <= 18,
            forall|j: int| 0 <= j < i ==> (#[trigger] KNOWN_MODELS@[j])@ != id@,
        decreases 18 - i,
    {
        let known: &'static str = KNOWN_MODELS[i];
        if text::same(known, id) {
            return Some(known);
        }
        i += 1;
    }
    None
}

/// The first effort suffix from position `i` on that `s` ends with.
pub open spec fn suffix_from(s: Seq<char>, i: int) -> Option<int>
    decreases 7 - i,
{
    if i < 0 || i >= 7 {
        None
    } else if text::ends(s, EFFORT_SUFFIXES@[i]@) {
        Some(i)
    } else {
        suffix_from(s, i + 1)
    }
}

/// `s` without its effort suffix.
pub open spec fn stripped(s: Seq<char>) -> Seq<char> {
    match suffix_from(s, 0) {
        Some(i) => s.take(s.len() - EFFORT_SUFFIXES@[i]@.len()),
        None => s,
    }
}

/// The effort that a name ends with: none where the whole name is a known
/// model.
pub open spec fn named_effort(name: Seq<char>) -> Option<Seq<char>> {
    let id = text::lower(text::trimmed(name));
    if is_known(id) {
        None
    } else {
        match suffix_from(id, 0) {
            Some(i) => Some(EFFORT_SUFFIXES@[i]@.skip(1)),
            None => None,
        }
    }
}

/// The effort that a model id asks for by its suffix: none where the whole id
/// is a known model, or where nothing stands before the suffix.
pub open spec fn suffix_effort(model: Seq<char>) -> Option<Seq<char>> {
    if stripped(text::lower(text::trimmed(model))).len() == 0 {
        None
    } else {
        named_effort(model)
    }
}

/// `id` names something in the gpt-6 family: the bare alias, a `gpt-6-<tier>`
/// or a `gpt-6.<n>`. `gpt-60` is not one.
pub open spec fn in_gpt6_family(id: Seq<char>) -> bool {
    id == "gpt-6"@ || text::begins(id, "gpt-6-"@) || text::begins(id, "gpt-6."@)
}

/// The known model that an id without effort suffix stands for. A variant of a
/// known family stays in its family.
pub open spec fn family_model(id: Seq<char>) -> Seq<char> {
    if id.len() == 0 {
        GPT5@
    } else if is_known(id) {
        id
    } else if in_gpt6_family(id) {
        GPT6_ASTRA@
    } else if id == "gpt-5.6"@ || text::begins(id, "gpt-5.6-"@) {
        GPT5_6_SOL@
    } else if text::has(id, "gpt-5.2-codex"@) {
        GPT5_2_CODEX@
    } else if text::has(id, "gpt-5.3-codex-spark"@) {
        GPT5_3_CODEX_SPARK@
    } else if text::has(id, "gpt-5.3-codex"@) {
        GPT5_3_CODEX@
    } else if text::has(id, "gpt-5.4-mini"@) {
        GPT5_4_MINI@
    } else if text::has(id, "gpt-5.4"@) {
        GPT5_4@
    } else if text::has(id, "gpt-5.2"@) {
        GPT5_2@
    } else if text::has(id, "gpt-5.1-codex-max"@) {
        GPT5_1_CODEX_MAX@
    } else if text::has(id, "gpt-5.1-codex-mini"@) {
        GPT5_1_CODEX_MINI@
    } else if text::has(id, "gpt-5.1-codex"@) {
        GPT5_1_CODEX@
    } else if text::has(id, "gpt-5.1"@) {
        GPT5_1@
    } else if text::has(id, "gpt-5.5"@) {
        GPT5_5@
    } else if text::has(id, "gpt-5-codex-mini"@) {
        GPT5_CODEX_MINI@
    } else if text::has(id, "mini"@) || text::has(id, "4o"@) {
        GPT5_1_CODEX_MINI@
    } else if text::has(id, "codex"@) {
        GPT5_CODEX@
    } else {
        GPT5@
    }
}

/// The known model that a requested id stands for. Surrounding white space and
/// letter case do not count; a known id is taken as it is, before any suffix
/// is stripped.
pub open spec fn normalized(model: Seq<char>) -> Seq<char> {
    let id = text::lower(text::trimmed(model));
    if is_known(id) {
        id
    } else {
        family_model(stripped(id))
    }
}

/// Whether an id in lower case is in the gpt-6 family.
pub fn is_gpt6_family(id: &str) -> (r: bool)
    ensures
        r == in_gpt6_family(id@),
{
    text::same(id, "gpt-6") || text::starts_with(id, "gpt-6-") || text::starts_with(id, "gpt-6.")
}

/// The position of the effort suffix that `s` ends with.
fn find_suffix(s: &str) -> (r: Option<usize>)
    ensures
        match r {
            Some(i) => suffix_from(s@, 0) == Some(i as int) && i < 7,
            None => suffix_from(s@, 0) is None,
        },
{
    let mut i: usize = 0;
    while i < 7
        invariant
            i <= 7,
            suffix_from(s@, 0) == suffix_from(s@, i as int),
        decreases 7 - i,
    {
        if text::ends_with(s, EFFORT_SUFFIXES[i]) {
            return Some(i);
        }
        i += 1;
    }
    None
}

/// A suffix that was found stands at the end of the text.
proof fn lemma_suffix_found(s: Seq<char>, i: int)
    requires
        0 <= i,
    ensures
        match suffix_from(s, i) {
            Some(k) => i <= k < 7 && text::ends(s, EFFORT_SUFFIXES@[k]@),
            None => forall|k: int| i <= k < 7 ==> !text::ends(s, (#[trigger] EFFORT_SUFFIXES@[k])@),
        },
    decreases 7 - i,
{
    if i < 7 && !text::ends(s, EFFORT_SUFFIXES@[i]@) {
        lemma_suffix_found(s, i + 1);
    }
}

/// `s` without its effort suffix.
fn strip_suffix(s: &str) -> (r: String)
    ensures
        r@ == stripped(s@),
{
    proof {
        lemma_suffix_found(s@, 0);
    }
    let cs: Vec<char> = text::chars_of(s);
    match find_suffix(s) {
        Some(i) => {
            let suffix: Vec<char> = text::chars_of(EFFORT_SUFFIXES[i]);
            let to: usize = cs.len() - suffix.len();
            proof {
                assert(cs@.subrange(0, to as int) =~= cs@.take(to as int));
            }
            text::string_of(&cs, 0, to)
        },
        None => s.to_owned(),
    }
}

/// The reasoning effort that a model id asks for by its `-<effort>` suffix.
///
/// This reads the suffix that [`normalize_model`] strips. Both consult
/// [`exact_model`] first: `gpt-5.1-codex-max` is a model, not a request for
/// `max` effort.
pub fn effort_suffix(model: &str) -> (r: Option<&'static str>)
    ensures
        match r {
            Some(effort) => suffix_effort(model@) == Some(effort@),
            None => suffix_effort(model@) is None,
        },
{
    let trimmed = text::trim(model);
    let id = text::to_lower(trimmed.as_str());
    let rest = strip_suffix(id.as_str());
    if rest.as_str().is_empty() {
        return None;
    }
    name_effort(model)
}

/// The reasoning effort that a model name ends with, though nothing may stand
/// before it.
pub fn name_effort(name: &str) -> (r: Option<&'static str>)
    ensures
        match r {
            Some(effort) => named_effort(name@) == Some(effort@),
            None => named_effort(name@) is None,
        },
{
    let trimmed = text::trim(name);
    let id = text::to_lower(trimmed.as_str());
    if exact_model(id.as_str()).is_some() {
        return None;
    }
    match find_suffix(id.as_str()) {
        Some(i) => Some(effort_name(i)),
        None => None,
    }
}

/// The effort of the suffix at position `i`.
fn effort_name(i: usize) -> (r: &'static str)
    requires
        i < 7,
    ensures
        r@ == EFFORT_SUFFIXES@[i as int]@.skip(1),
{
    proof {
        reveal_strlit("-ultra");
        reveal_strlit("-xhigh");
        reveal_strlit("-high");
        reveal_strlit("-medium");
        reveal_strlit("-low");
        reveal_strlit("-minimal");
        reveal_strlit("-max");
        reveal_strlit("ultra");
        reveal_strlit("xhigh");
        reveal_strlit("high");
        reveal_strlit("medium");
        reveal_strlit("low");
        reveal_strlit("minimal");
        reveal_strlit("max");
        assert("-ultra"@.skip(1) =~= "ultra"@);
        assert("-xhigh"@.skip(1) =~= "xhigh"@);
        assert("-high"@.skip(1) =~= "high"@);
        assert("-medium"@.skip(1) =~= "medium"@);
        assert("-low"@.skip(1) =~= "low"@);
        assert("-minimal"@.skip(1) =~= "minimal"@);
        assert("-max"@.skip(1) =~= "max"@);
    }
    if i == 0 {
        "ultra"
    } else if i == 1 {
        "xhigh"
    } else if i == 2 {
        "high"
    } else if i == 3 {
        "medium"
    } else if i == 4 {
        "low"
    } else if i == 5 {
        "minimal"
    } else {
        "max"
    }
}

/// The known model that a requested id stands for.
pub fn normalize_model(model: &str) -> (r: &'static str)
    ensures
        r@ == normalized(model@),
{
    let trimmed = text::trim(model);
    let lower = text::to_lower(trimmed.as_str());
    match exact_model(lower.as_str()) {
        Some(known) => {
            return known;
        },
        None => {},
    }
    let rest = strip_suffix(lower.as_str());
    let id: &str = rest.as_str();
    if id.is_empty() {
        return GPT5;
    }
    match exact_model(id) {
        Some(known) => {
            return known;
        },
        None => {},
    }
    if is_gpt6_family(id) {
        return GPT6_ASTRA;
    }
    if text::same(id, "gpt-5.6") || text::starts_with(id, "gpt-5.6-") {
        return GPT5_6_SOL;
    }
    if text::contains(id, "gpt-5.2-codex") {
        return GPT5_2_CODEX;
    }
    if text::contains(id, "gpt-5.3-codex-spark") {
        return GPT5_3_CODEX_SPARK;
    }
    if text::contains(id, "gpt-5.3-codex") {
        return GPT5_3_CODEX;
    }
    if text::contains(id, "gpt-5.4-mini") {
        return GPT5_4_MINI;
    }
    if text::contains(id, "gpt-5.4") {
        return GPT5_4;
    }
    if text::contains(id, "gpt-5.2") {
        return GPT5_2;
    }
    if text::contains(id, "gpt-5.1-codex-max") {
        return GPT5_1_CODEX_MAX;
    }
    if text::contains(id, "gpt-5.1-codex-mini") {
        return GPT5_1_CODEX_MINI;
    }
    if text::contains(id, "gpt-5.1-codex") {
        return GPT5_1_CODEX;
    }
    if text::contains(id, "gpt-5.1") {
        return GPT5_1;
    }
    if text::contains(id, "gpt-5.5") {
        return GPT5_5;
    }
    if text::contains(id, "gpt-5-codex-mini") {
        return GPT5_CODEX_MINI;
    }
    if text::contains(id, "mini") || text::contains(id, "4o") {
        return GPT5_1_CODEX_MINI;
    }
    if text::contains(id, "codex") {
        return GPT5_CODEX;
    }
    GPT5
}

/// The efforts that a model accepts; `None` where it is not restricted.
pub open spec fn allowed_efforts(model: Seq<char>) -> Option<Seq<Seq<char>>> {
    if model == GPT5@ || model == GPT5_CODEX@ {
        Some(seq!["minimal"@, "low"@, "medium"@, "high"@])
    } else if model == GPT5_2@ || model == GPT5_4@ || model == GPT5_4_MINI@ || model
        == GPT5_2_CODEX@ || model == GPT5_3_CODEX@ || model == GPT5_3_CODEX_SPARK@ || model
        == GPT5_5@ || model == GPT5_1_CODEX_MAX@ {
        Some(seq!["low"@, "medium"@, "high"@, "xhigh"@])
    } else if model == GPT6_ASTRA@ || model == GPT5_6_SOL@ || model == GPT5_6_TERRA@ {
        Some(seq!["low"@, "medium"@, "high"@, "xhigh"@, "max"@, "ultra"@])
    } else if model == GPT5_6_LUNA@ {
        Some(seq!["low"@, "medium"@, "high"@, "xhigh"@, "max"@])
    } else if model == GPT5_1@ || model == GPT5_1_CODEX@ {
        Some(seq!["low"@, "medium"@, "high"@])
    } else if model == GPT5_CODEX_MINI@ || model == GPT5_1_CODEX_MINI@ {
        Some(seq!["medium"@, "high"@])
    } else {
        None
    }
}

/// The effort that a model gets where the request names none that it accepts.
pub open spec fn default_effort(model: Seq<char>) -> Option<Seq<char>> {
    if model == GPT5_1@ || model == GPT5_1_CODEX@ || model == GPT5_1_CODEX_MAX@ || model
        == GPT5_6_SOL@ || model == GPT6_ASTRA@ {
        Some("low"@)
    } else if model == GPT5_2@ || model == GPT5_4@ || model == GPT5_4_MINI@ || model
        == GPT5_2_CODEX@ || model == GPT5_3_CODEX@ || model == GPT5_5@ || model == GPT5_CODEX_MINI@
        || model == GPT5_1_CODEX_MINI@ || model == GPT5_6_TERRA@ || model == GPT5_6_LUNA@ {
        Some("medium"@)
    } else if model == GPT5_3_CODEX_SPARK@ {
        Some("high"@)
    } else {
        None
    }
}

/// The views of a list of string slices.
pub open spec fn str_views(v: Seq<&'static str>) -> Seq<Seq<char>> {
    v.map_values(|s: &'static str| s@)
}

/// The efforts that a model accepts; `None` where it is not restricted.
pub fn model_allowed_efforts(model: &str) -> (r: Option<Vec<&'static str>>)
    ensures
        match r {
            Some(v) => allowed_efforts(model@) == Some(str_views(v@)),
            None => allowed_efforts(model@) is None,
        },
{
    let mut v: Vec<&'static str> = Vec::new();
    if text::same(model, GPT5) || text::same(model, GPT5_CODEX) {
        v.push("minimal");
        v.push("low");
        v.push("medium");
        v.push("high");
        proof {
            assert(str_views(v@) =~= seq!["minimal"@, "low"@, "medium"@, "high"@]);
        }
    } else if text::same(model, GPT5_2) || text::same(model, GPT5_4) || text::same(
        model,
        GPT5_4_MINI,
    ) || text::same(model, GPT5_2_CODEX) || text::same(model, GPT5_3_CODEX) || text::same(
        model,
        GPT5_3_CODEX_SPARK,
    ) || text::same(model, GPT5_5) || text::same(model, GPT5_1_CODEX_MAX) {
        v.push("low");
        v.push("medium");
        v.push("high");
        v.push("xhigh");
        proof {
            assert(str_views(v@) =~= seq!["low"@, "medium"@, "high"@, "xhigh"@]);
        }
    } else if text::same(model, GPT6_ASTRA) || text::same(model, GPT5_6_SOL) || text::same(
        model,
        GPT5_6_TERRA,
    ) {
        v.push("low");
        v.push("medium");
        v.push("high");
        v.push("xhigh");
        v.push("max");
        v.push("ultra");
        proof {
            assert(str_views(v@) =~= seq!["low"@, "medium"@, "high"@, "xhigh"@, "max"@, "ultra"@]);
        }
    } else if text::same(model, GPT5_6_LUNA) {
        v.push("low");
        v.push("medium");
        v.push("high");
        v.push("xhigh");
        v.push("max");
        proof {
            assert(str_views(v@) =~= seq!["low"@, "medium"@, "high"@, "xhigh"@, "max"@]);
        }
    } else if text::same(model, GPT5_1) || text::same(model, GPT5_1_CODEX) {
        v.push("low");
        v.push("medium");
        v.push("high");
        proof {
            assert(str_views(v@) =~= seq!["low"@, "medium"@, "high"@]);
        }
    } else if text::same(model, GPT5_CODEX_MINI) || text::same(model, GPT5_1_CODEX_MINI) {
        v.push("medium");
        v.push("high");
        proof {
            assert(str_views(v@) =~= seq!["medium"@, "high"@]);
        }
    } else {
        return None;
    }
    Some(v)
}

/// The effort that a model gets where the request names none that it accepts.
pub fn model_default_effort(model: &str) -> (r: Option<&'static str>)
    ensures
        match r {
            Some(effort) => default_effort(model@) == Some(effort@),
            None => default_effort(model@) is None,
        },
{
    if text::same(model, GPT5_1) || text::same(model, GPT5_1_CODEX) || text::same(
        model,
        GPT5_1_CODEX_MAX,
    ) || text::same(model, GPT5_6_SOL) || text::same(model, GPT6_ASTRA) {
        Some("low")
    } else if text::same(model, GPT5_2) || text::same(model, GPT5_4) || text::same(
        model,
        GPT5_4_MINI,
    ) || text::same(model, GPT5_2_CODEX) || text::same(model, GPT5_3_CODEX) || text::same(
        model,
        GPT5_5,
    ) || text::same(model, GPT5_CODEX_MINI) || text::same(model, GPT5_1_CODEX_MINI) || text::same(
        model,
        GPT5_6_TERRA,
    ) || text::same(model, GPT5_6_LUNA) {
        Some("medium")
    } else if text::same(model, GPT5_3_CODEX_SPARK) {
        Some("high")
    } else {
        None
    }
}

/// The canonical form of an effort: one of the seven levels, `low` for `none`,
/// and the empty text for anything else. Surrounding white space and letter
/// case do not count.
pub open spec fn normalized_effort(effort: Seq<char>) -> Seq<char> {
    let e = text::lower(text::trimmed(effort));
    if e == "minimal"@ || e == "low"@ || e == "medium"@ || e == "high"@ || e == "xhigh"@ || e
        == "max"@ || e == "ultra"@ {
        e
    } else if e == "none"@ {
        "low"@
    } else {
        ""@
    }
}

/// The canonical form of an effort; empty where it is not a level.
pub fn normalize_reasoning_effort(effort: &str) -> (r: &'static str)
    ensures
        r@ == normalized_effort(effort@),
{
    let trimmed = text::trim(effort);
    let lower = text::to_lower(trimmed.as_str());
    let e: &str = lower.as_str();
    if text::same(e, "minimal") {
        "minimal"
    } else if text::same(e, "low") {
        "low"
    } else if text::same(e, "medium") {
        "medium"
    } else if text::same(e, "high") {
        "high"
    } else if text::same(e, "xhigh") {
        "xhigh"
    } else if text::same(e, "max") {
        "max"
    } else if text::same(e, "ultra") {
        "ultra"
    } else if text::same(e, "none") {
        "low"
    } else {
        ""
    }
}

/// The effort that goes to the backend: the requested one where the model
/// accepts it or is not restricted, else the model's default, else none. A
/// level that a model does not accept never reaches it.
pub open spec fn clamped(effort: Seq<char>, model: Seq<char>) -> Seq<char> {
    let e = text::trimmed(effort);
    let m = text::trimmed(model);
    if e.len() == 0 {
        match default_effort(m) {
            Some(d) => d,
            None => Seq::empty(),
        }
    } else {
        match allowed_efforts(m) {
            None => e,
            Some(allowed) => if allowed.contains(e) {
                e
            } else {
                match default_effort(m) {
                    Some(d) => d,
                    None => Seq::empty(),
                }
            },
        }
    }
}

/// An effort clamped to what a model accepts, with the model's default where
/// none is given or the one given is not accepted; empty where that model has
/// no default.
pub fn clamp_reasoning_effort_for_model(effort: &str, backend_model: &str) -> (r: String)
    ensures
        r@ == clamped(effort@, backend_model@),
{
    let e = text::trim(effort);
    let m = text::trim(backend_model);
    if e.as_str().is_empty() {
        return match model_default_effort(m.as_str()) {
            Some(d) => d.to_owned(),
            None => String::new(),
        };
    }
    match model_allowed_efforts(m.as_str()) {
        None => e,
        Some(allowed) => {
            let mut i: usize = 0;
            while i < allowed.len()
                invariant
                    i <= allowed@.len(),
                    e@ == text::trimmed(effort@),
                    e@.len() > 0,
                    allowed_efforts(text::trimmed(backend_model@)) == Some(str_views(allowed@)),
                    forall|j: int| 0 <= j < i ==> str_views(allowed@)[j] != e@,
                decreases allowed@.len() - i,
            {
                if text::same(allowed[i], e.as_str()) {
                    proof {
                        assert(str_views(allowed@)[i as int] == e@);
                    }
                    return e;
                }
                i += 1;
            }
            match model_default_effort(m.as_str()) {
                Some(d) => d.to_owned(),
                None => String::new(),
            }
        },
    }
}

/// No character is white space or an ASCII capital.
pub open spec fn plain(s: Seq<char>) -> bool {
    forall|i: int|
        0 <= i < s.len() ==> !text::is_space(#[trigger] s[i]) && text::lower_char(s[i]) == s[i]
}

/// Trimming and lower-casing leave a plain text as it is.
proof fn lemma_plain(s: Seq<char>)
    requires
        plain(s),
    ensures
        text::trimmed(s) == s,
        text::lower(text::trimmed(s)) == s,
{
    if s.len() > 0 {
        assert(!text::is_space(s[0]));
        assert(!text::is_space(s[s.len() - 1]));
    }
    assert(text::trimmed(s) == s);
    assert(text::lower(s) =~= s);
}

/// The known ids are plain, and each constant is one of them.
proof fn lemma_known_models()
    ensures
        is_known(GPT6_ASTRA@),
        is_known(GPT5_6_SOL@),
        is_known(GPT5_6_TERRA@),
        is_known(GPT5_6_LUNA@),
        is_known(GPT5_5@),
        is_known(GPT5_4@),
        is_known(GPT5_4_MINI@),
        is_known(GPT5_3_CODEX_SPARK@),
        is_known(GPT5_3_CODEX@),
        is_known(GPT5_2_CODEX@),
        is_known(GPT5_2@),
        is_known(GPT5_1_CODEX_MAX@),
        is_known(GPT5_1_CODEX_MINI@),
        is_known(GPT5_1_CODEX@),
        is_known(GPT5_1@),
        is_known(GPT5_CODEX_MINI@),
        is_known(GPT5_CODEX@),
        is_known(GPT5@),
        forall|i: int| 0 <= i < 18 ==> plain((#[trigger] KNOWN_MODELS@[i])@),
{
    reveal_strlit("gpt-6-astra");
    reveal_strlit("gpt-5.6-sol");
    reveal_strlit("gpt-5.6-terra");
    reveal_strlit("gpt-5.6-luna");
    reveal_strlit("gpt-5.5");
    reveal_strlit("gpt-5.4");
    reveal_strlit("gpt-5.4-mini");
    reveal_strlit("gpt-5.3-codex-spark");
    reveal_strlit("gpt-5.3-codex");
    reveal_strlit("gpt-5.2-codex");
    reveal_strlit("gpt-5.2");
    reveal_strlit("gpt-5.1-codex-max");
    reveal_strlit("gpt-5.1-codex-mini");
    reveal_strlit("gpt-5.1-codex");
    reveal_strlit("gpt-5.1");
    reveal_strlit("gpt-5-codex-mini");
    reveal_strlit("gpt-5-codex");
    reveal_strlit("gpt-5");
    assert(KNOWN_MODELS@[0]@ == GPT6_ASTRA@);
    assert(KNOWN_MODELS@[1]@ == GPT5_6_SOL@);
    assert(KNOWN_MODELS@[2]@ == GPT5_6_TERRA@);
    assert(KNOWN_MODELS@[3]@ == GPT5_6_LUNA@);
    assert(KNOWN_MODELS@[4]@ == GPT5_5@);
    assert(KNOWN_MODELS@[5]@ == GPT5_4@);
    assert(KNOWN_MODELS@[6]@ == GPT5_4_MINI@);
    assert(KNOWN_MODELS@[7]@ == GPT5_3_CODEX_SPARK@);
    assert(KNOWN_MODELS@[8]@ == GPT5_3_CODEX@);
    assert(KNOWN_MODELS@[9]@ == GPT5_2_CODEX@);
    assert(KNOWN_MODELS@[10]@ == GPT5_2@);
    assert(KNOWN_MODELS@[11]@ == GPT5_1_CODEX_MAX@);
    assert(KNOWN_MODELS@[12]@ == GPT5_1_CODEX_MINI@);
    assert(KNOWN_MODELS@[13]@ == GPT5_1_CODEX@);
    assert(KNOWN_MODELS@[14]@ == GPT5_1@);
    assert(KNOWN_MODELS@[15]@ == GPT5_CODEX_MINI@);
    assert(KNOWN_MODELS@[16]@ == GPT5_CODEX@);
    assert(KNOWN_MODELS@[17]@ == GPT5@);
    assert forall|i: int| 0 <= i < 18 implies plain((#[trigger] KNOWN_MODELS@[i])@) by {
        if i == 0 {
            assert(plain(GPT6_ASTRA@));
        } else if i == 1 {
            assert(plain(GPT5_6_SOL@));
        } else if i == 2 {
            assert(plain(GPT5_6_TERRA@));
        } else if i == 3 {
            assert(plain(GPT5_6_LUNA@));
        } else if i == 4 {
            assert(plain(GPT5_5@));
        } else if i == 5 {
            assert(plain(GPT5_4@));
        } else if i == 6 {
            assert(plain(GPT5_4_MINI@));
        } else if i == 7 {
            assert(plain(GPT5_3_CODEX_SPARK@));
        } else if i == 8 {
            assert(plain(GPT5_3_CODEX@));
        } else if i == 9 {
            assert(plain(GPT5_2_CODEX@));
        } else if i == 10 {
            assert(plain(GPT5_2@));
        } else if i == 11 {
            assert(plain(GPT5_1_CODEX_MAX@));
        } else if i == 12 {
            assert(plain(GPT5_1_CODEX_MINI@));
        } else if i == 13 {
            assert(plain(GPT5_1_CODEX@));
        } else if i == 14 {
            assert(plain(GPT5_1@));
        } else if i == 15 {
            assert(plain(GPT5_CODEX_MINI@));
        } else if i == 16 {
            assert(plain(GPT5_CODEX@));
        } else if i == 17 {
            assert(plain(GPT5@));
        }
    }
}

/// A known id is not empty and has no white space around it.
pub proof fn lemma_known_not_empty(id: Seq<char>)
    requires
        is_known(id),
    ensures
        id.len() > 0,
        text::trimmed(id) == id,
{
    lemma_known_models();
    let i = choose|i: int| 0 <= i < 18 && (#[trigger] KNOWN_MODELS@[i])@ == id;
    lemma_plain(KNOWN_MODELS@[i]@);
    reveal_strlit("gpt-6-astra");
    reveal_strlit("gpt-5.6-sol");
    reveal_strlit("gpt-5.6-terra");
    reveal_strlit("gpt-5.6-luna");
    reveal_strlit("gpt-5.5");
    reveal_strlit("gpt-5.4");
    reveal_strlit("gpt-5.4-mini");
    reveal_strlit("gpt-5.3-codex-spark");
    reveal_strlit("gpt-5.3-codex");
    reveal_strlit("gpt-5.2-codex");
    reveal_strlit("gpt-5.2");
    reveal_strlit("gpt-5.1-codex-max");
    reveal_strlit("gpt-5.1-codex-mini");
    reveal_strlit("gpt-5.1-codex");
    reveal_strlit("gpt-5.1");
    reveal_strlit("gpt-5-codex-mini");
    reveal_strlit("gpt-5-codex");
    reveal_strlit("gpt-5");
}

/// Whatever is asked for, a known model is served.
pub proof fn law_normalized_is_known(model: Seq<char>)
    ensures
        is_known(normalized(model)),
{
    lemma_known_models();
}

/// A known id stands for itself.
pub proof fn law_known_ids_are_fixed(id: Seq<char>)
    requires
        is_known(id),
    ensures
        normalized(id) == id,
        suffix_effort(id) is None,
{
    lemma_known_models();
    let i = choose|i: int| 0 <= i < 18 && (#[trigger] KNOWN_MODELS@[i])@ == id;
    lemma_plain(KNOWN_MODELS@[i]@);
}

/// Normalizing twice is normalizing once.
pub proof fn law_normalized_is_idempotent(model: Seq<char>)
    ensures
        normalized(normalized(model)) == normalized(model),
{
    law_normalized_is_known(model);
    law_known_ids_are_fixed(normalized(model));
}

/// The effort suffixes are plain, not empty, and none ends with another.
proof fn lemma_suffixes(base: Seq<char>, j: int)
    requires
        0 <= j < 7,
    ensures
        plain(EFFORT_SUFFIXES@[j]@),
        suffix_from(base + EFFORT_SUFFIXES@[j]@, 0) == Some(j),
        stripped(base + EFFORT_SUFFIXES@[j]@) == base,
{
    reveal_strlit("-ultra");
    reveal_strlit("-xhigh");
    reveal_strlit("-high");
    reveal_strlit("-medium");
    reveal_strlit("-low");
    reveal_strlit("-minimal");
    reveal_strlit("-max");
    let suf = EFFORT_SUFFIXES@[j]@;
    let s = base + suf;
    assert(s.subrange(base.len() as int, s.len() as int) =~= suf);
    assert(text::ends(s, suf));
    assert forall|k: int| 0 <= k < 7 && k != j implies !text::ends(
        s,
        (#[trigger] EFFORT_SUFFIXES@[k])@,
    ) by {
        let other = EFFORT_SUFFIXES@[k]@;
        if text::ends(s, other) {
            let at = s.len() - other.len();
            let tail = s.subrange(at, s.len() as int);
            assert(tail == other);
            assert(tail[0] == '-');
            assert(s[base.len() as int] == '-');
            if at >= base.len() {
                assert(s[at] == suf[at - base.len()]);
                assert(tail[1] == s[at + 1]);
                assert(s[at + 1] == suf[at + 1 - base.len()]);
            } else {
                assert(tail[base.len() - at] == s[base.len() as int]);
            }
            assert(false);
        }
    }
    lemma_suffix_found(s, 0);
    assert(s.take(s.len() - suf.len()) =~= base);
}

/// What normalizing strips from `<known id><suffix>` is what reading the
/// suffix reports: the base model and that effort, unless the whole spells
/// another known id.
pub proof fn law_suffix_is_read_and_stripped_alike(base: Seq<char>, j: int)
    requires
        is_known(base),
        0 <= j < 7,
        !is_known(base + EFFORT_SUFFIXES@[j]@),
    ensures
        normalized(base + EFFORT_SUFFIXES@[j]@) == base,
        suffix_effort(base + EFFORT_SUFFIXES@[j]@) == Some(EFFORT_SUFFIXES@[j]@.skip(1)),
{
    lemma_known_models();
    lemma_suffixes(base, j);
    let i = choose|i: int| 0 <= i < 18 && (#[trigger] KNOWN_MODELS@[i])@ == base;
    assert(plain(KNOWN_MODELS@[i]@));
    let s = base + EFFORT_SUFFIXES@[j]@;
    assert(plain(s)) by {
        assert forall|k: int| 0 <= k < s.len() implies !text::is_space(#[trigger] s[k])
            && text::lower_char(s[k]) == s[k] by {
            if k < base.len() {
                assert(s[k] == base[k]);
            } else {
                assert(s[k] == EFFORT_SUFFIXES@[j]@[k - base.len()]);
            }
        }
    }
    lemma_plain(s);
    reveal_strlit("gpt-6-astra");
    reveal_strlit("gpt-5.6-sol");
    reveal_strlit("gpt-5.6-terra");
    reveal_strlit("gpt-5.6-luna");
    reveal_strlit("gpt-5.5");
    reveal_strlit("gpt-5.4");
    reveal_strlit("gpt-5.4-mini");
    reveal_strlit("gpt-5.3-codex-spark");
    reveal_strlit("gpt-5.3-codex");
    reveal_strlit("gpt-5.2-codex");
    reveal_strlit("gpt-5.2");
    reveal_strlit("gpt-5.1-codex-max");
    reveal_strlit("gpt-5.1-codex-mini");
    reveal_strlit("gpt-5.1-codex");
    reveal_strlit("gpt-5.1");
    reveal_strlit("gpt-5-codex-mini");
    reveal_strlit("gpt-5-codex");
    reveal_strlit("gpt-5");
}

/// No two known ids are equal.
proof fn lemma_known_distinct()
    ensures
        GPT6_ASTRA@ != GPT5_6_SOL@ && GPT6_ASTRA@ != GPT5_6_TERRA@ && GPT6_ASTRA@ != GPT5_6_LUNA@ && GPT6_ASTRA@ != GPT5_5@ && GPT6_ASTRA@ != GPT5_4@ && GPT6_ASTRA@ != GPT5_4_MINI@ && GPT6_ASTRA@ != GPT5_3_CODEX_SPARK@ && GPT6_ASTRA@ != GPT5_3_CODEX@ && GPT6_ASTRA@ != GPT5_2_CODEX@ && GPT6_ASTRA@ != GPT5_2@ && GPT6_ASTRA@ != GPT5_1_CODEX_MAX@ && GPT6_ASTRA@ != GPT5_1_CODEX_MINI@ && GPT6_ASTRA@ != GPT5_1_CODEX@ && GPT6_ASTRA@ != GPT5_1@ && GPT6_ASTRA@ != GPT5_CODEX_MINI@ && GPT6_ASTRA@ != GPT5_CODEX@ && GPT6_ASTRA@ != GPT5@,
        GPT5_6_SOL@ != GPT5_6_TERRA@ && GPT5_6_SOL@ != GPT5_6_LUNA@ && GPT5_6_SOL@ != GPT5_5@ && GPT5_6_SOL@ != GPT5_4@ && GPT5_6_SOL@ != GPT5_4_MINI@ && GPT5_6_SOL@ != GPT5_3_CODEX_SPARK@ && GPT5_6_SOL@ != GPT5_3_CODEX@ && GPT5_6_SOL@ != GPT5_2_CODEX@ && GPT5_6_SOL@ != GPT5_2@ && GPT5_6_SOL@ != GPT5_1_CODEX_MAX@ && GPT5_6_SOL@ != GPT5_1_CODEX_MINI@ && GPT5_6_SOL@ != GPT5_1_CODEX@ && GPT5_6_SOL@ != GPT5_1@ && GPT5_6_SOL@ != GPT5_CODEX_MINI@ && GPT5_6_SOL@ != GPT5_CODEX@ && GPT5_6_SOL@ != GPT5@,
        GPT5_6_TERRA@ != GPT5_6_LUNA@ && GPT5_6_TERRA@ != GPT5_5@ && GPT5_6_TERRA@ != GPT5_4@ && GPT5_6_TERRA@ != GPT5_4_MINI@ && GPT5_6_TERRA@ != GPT5_3_CODEX_SPARK@ && GPT5_6_TERRA@ != GPT5_3_CODEX@ && GPT5_6_TERRA@ != GPT5_2_CODEX@ && GPT5_6_TERRA@ != GPT5_2@ && GPT5_6_TERRA@ != GPT5_1_CODEX_MAX@ && GPT5_6_TERRA@ != GPT5_1_CODEX_MINI@ && GPT5_6_TERRA@ != GPT5_1_CODEX@ && GPT5_6_TERRA@ != GPT5_1@ && GPT5_6_TERRA@ != GPT5_CODEX_MINI@ && GPT5_6_TERRA@ != GPT5_CODEX@ && GPT5_6_TERRA@ != GPT5@,
        GPT5_6_LUNA@ != GPT5_5@ && GPT5_6_LUNA@ != GPT5_4@ && GPT5_6_LUNA@ != GPT5_4_MINI@ && GPT5_6_LUNA@ != GPT5_3_CODEX_SPARK@ && GPT5_6_LUNA@ != GPT5_3_CODEX@ && GPT5_6_LUNA@ != GPT5_2_CODEX@ && GPT5_6_LUNA@ != GPT5_2@ && GPT5_6_LUNA@ != GPT5_1_CODEX_MAX@ && GPT5_6_LUNA@ != GPT5_1_CODEX_MINI@ && GPT5_6_LUNA@ != GPT5_1_CODEX@ && GPT5_6_LUNA@ != GPT5_1@ && GPT5_6_LUNA@ != GPT5_CODEX_MINI@ && GPT5_6_LUNA@ != GPT5_CODEX@ && GPT5_6_LUNA@ != GPT5@,
        GPT5_5@ != GPT5_4@ && GPT5_5@ != GPT5_4_MINI@ && GPT5_5@ != GPT5_3_CODEX_SPARK@ && GPT5_5@ != GPT5_3_CODEX@ && GPT5_5@ != GPT5_2_CODEX@ && GPT5_5@ != GPT5_2@ && GPT5_5@ != GPT5_1_CODEX_MAX@ && GPT5_5@ != GPT5_1_CODEX_MINI@ && GPT5_5@ != GPT5_1_CODEX@ && GPT5_5@ != GPT5_1@ && GPT5_5@ != GPT5_CODEX_MINI@ && GPT5_5@ != GPT5_CODEX@ && GPT5_5@ != GPT5@,
        GPT5_4@ != GPT5_4_MINI@ && GPT5_4@ != GPT5_3_CODEX_SPARK@ && GPT5_4@ != GPT5_3_CODEX@ && GPT5_4@ != GPT5_2_CODEX@ && GPT5_4@ != GPT5_2@ && GPT5_4@ != GPT5_1_CODEX_MAX@ && GPT5_4@ != GPT5_1_CODEX_MINI@ && GPT5_4@ != GPT5_1_CODEX@ && GPT5_4@ != GPT5_1@ && GPT5_4@ != GPT5_CODEX_MINI@ && GPT5_4@ != GPT5_CODEX@ && GPT5_4@ != GPT5@,
        GPT5_4_MINI@ != GPT5_3_CODEX_SPARK@ && GPT5_4_MINI@ != GPT5_3_CODEX@ && GPT5_4_MINI@ != GPT5_2_CODEX@ && GPT5_4_MINI@ != GPT5_2@ && GPT5_4_MINI@ != GPT5_1_CODEX_MAX@ && GPT5_4_MINI@ != GPT5_1_CODEX_MINI@ && GPT5_4_MINI@ != GPT5_1_CODEX@ && GPT5_4_MINI@ != GPT5_1@ && GPT5_4_MINI@ != GPT5_CODEX_MINI@ && GPT5_4_MINI@ != GPT5_CODEX@ && GPT5_4_MINI@ != GPT5@,
        GPT5_3_CODEX_SPARK@ != GPT5_3_CODEX@ && GPT5_3_CODEX_SPARK@ != GPT5_2_CODEX@ && GPT5_3_CODEX_SPARK@ != GPT5_2@ && GPT5_3_CODEX_SPARK@ != GPT5_1_CODEX_MAX@ && GPT5_3_CODEX_SPARK@ != GPT5_1_CODEX_MINI@ && GPT5_3_CODEX_SPARK@ != GPT5_1_CODEX@ && GPT5_3_CODEX_SPARK@ != GPT5_1@ && GPT5_3_CODEX_SPARK@ != GPT5_CODEX_MINI@ && GPT5_3_CODEX_SPARK@ != GPT5_CODEX@ && GPT5_3_CODEX_SPARK@ != GPT5@,
        GPT5_3_CODEX@ != GPT5_2_CODEX@ && GPT5_3_CODEX@ != GPT5_2@ && GPT5_3_CODEX@ != GPT5_1_CODEX_MAX@ && GPT5_3_CODEX@ != GPT5_1_CODEX_MINI@ && GPT5_3_CODEX@ != GPT5_1_CODEX@ && GPT5_3_CODEX@ != GPT5_1@ && GPT5_3_CODEX@ != GPT5_CODEX_MINI@ && GPT5_3_CODEX@ != GPT5_CODEX@ && GPT5_3_CODEX@ != GPT5@,
        GPT5_2_CODEX@ != GPT5_2@ && GPT5_2_CODEX@ != GPT5_1_CODEX_MAX@ && GPT5_2_CODEX@ != GPT5_1_CODEX_MINI@ && GPT5_2_CODEX@ != GPT5_1_CODEX@ && GPT5_2_CODEX@ != GPT5_1@ && GPT5_2_CODEX@ != GPT5_CODEX_MINI@ && GPT5_2_CODEX@ != GPT5_CODEX@ && GPT5_2_CODEX@ != GPT5@,
        GPT5_2@ != GPT5_1_CODEX_MAX@ && GPT5_2@ != GPT5_1_CODEX_MINI@ && GPT5_2@ != GPT5_1_CODEX@ && GPT5_2@ != GPT5_1@ && GPT5_2@ != GPT5_CODEX_MINI@ && GPT5_2@ != GPT5_CODEX@ && GPT5_2@ != GPT5@,
        GPT5_1_CODEX_MAX@ != GPT5_1_CODEX_MINI@ && GPT5_1_CODEX_MAX@ != GPT5_1_CODEX@ && GPT5_1_CODEX_MAX@ != GPT5_1@ && GPT5_1_CODEX_MAX@ != GPT5_CODEX_MINI@ && GPT5_1_CODEX_MAX@ != GPT5_CODEX@ && GPT5_1_CODEX_MAX@ != GPT5@,
        GPT5_1_CODEX_MINI@ != GPT5_1_CODEX@ && GPT5_1_CODEX_MINI@ != GPT5_1@ && GPT5_1_CODEX_MINI@ != GPT5_CODEX_MINI@ && GPT5_1_CODEX_MINI@ != GPT5_CODEX@ && GPT5_1_CODEX_MINI@ != GPT5@,
        GPT5_1_CODEX@ != GPT5_1@ && GPT5_1_CODEX@ != GPT5_CODEX_MINI@ && GPT5_1_CODEX@ != GPT5_CODEX@ && GPT5_1_CODEX@ != GPT5@,
        GPT5_1@ != GPT5_CODEX_MINI@ && GPT5_1@ != GPT5_CODEX@ && GPT5_1@ != GPT5@,
        GPT5_CODEX_MINI@ != GPT5_CODEX@ && GPT5_CODEX_MINI@ != GPT5@,
        GPT5_CODEX@ != GPT5@,
{
    reveal_strlit("gpt-6-astra");
    reveal_strlit("gpt-5.6-sol");
    reveal_strlit("gpt-5.6-terra");
    reveal_strlit("gpt-5.6-luna");
    reveal_strlit("gpt-5.5");
    reveal_strlit("gpt-5.4");
    reveal_strlit("gpt-5.4-mini");
    reveal_strlit("gpt-5.3-codex-spark");
    reveal_strlit("gpt-5.3-codex");
    reveal_strlit("gpt-5.2-codex");
    reveal_strlit("gpt-5.2");
    reveal_strlit("gpt-5.1-codex-max");
    reveal_strlit("gpt-5.1-codex-mini");
    reveal_strlit("gpt-5.1-codex");
    reveal_strlit("gpt-5.1");
    reveal_strlit("gpt-5-codex-mini");
    reveal_strlit("gpt-5-codex");
    reveal_strlit("gpt-5");
    assert(GPT6_ASTRA@.len() == 11);
    assert(GPT5_6_SOL@.len() == 11);
    assert(GPT5_6_TERRA@.len() == 13);
    assert(GPT5_6_LUNA@.len() == 12);
    assert(GPT5_5@.len() == 7);
    assert(GPT5_4@.len() == 7);
    assert(GPT5_4_MINI@.len() == 12);
    assert(GPT5_3_CODEX_SPARK@.len() == 19);
    assert(GPT5_3_CODEX@.len() == 13);
    assert(GPT5_2_CODEX@.len() == 13);
    assert(GPT5_2@.len() == 7);
    assert(GPT5_1_CODEX_MAX@.len() == 17);
    assert(GPT5_1_CODEX_MINI@.len() == 18);
    assert(GPT5_1_CODEX@.len() == 13);
    assert(GPT5_1@.len() == 7);
    assert(GPT5_CODEX_MINI@.len() == 16);
    assert(GPT5_CODEX@.len() == 11);
    assert(GPT5@.len() == 5);
    assert(GPT6_ASTRA@[4] != GPT5_6_SOL@[4]);
    assert(GPT6_ASTRA@[4] != GPT5_CODEX@[4]);
    assert(GPT5_6_SOL@[5] != GPT5_CODEX@[5]);
    assert(GPT5_6_TERRA@[6] != GPT5_3_CODEX@[6]);
    assert(GPT5_6_TERRA@[6] != GPT5_2_CODEX@[6]);
    assert(GPT5_6_TERRA@[6] != GPT5_1_CODEX@[6]);
    assert(GPT5_6_LUNA@[6] != GPT5_4_MINI@[6]);
    assert(GPT5_5@[6] != GPT5_4@[6]);
    assert(GPT5_5@[6] != GPT5_2@[6]);
    assert(GPT5_5@[6] != GPT5_1@[6]);
    assert(GPT5_4@[6] != GPT5_2@[6]);
    assert(GPT5_4@[6] != GPT5_1@[6]);
    assert(GPT5_3_CODEX@[6] != GPT5_2_CODEX@[6]);
    assert(GPT5_3_CODEX@[6] != GPT5_1_CODEX@[6]);
    assert(GPT5_2_CODEX@[6] != GPT5_1_CODEX@[6]);
    assert(GPT5_2@[6] != GPT5_1@[6]);
}

/// Whatever is asked for, a known model gets an effort that it accepts, or
/// none; and one that it accepts where it has a default.
pub proof fn law_clamped_is_accepted(effort: Seq<char>, model: Seq<char>)
    requires
        is_known(text::trimmed(model)),
    ensures
        allowed_efforts(text::trimmed(model)) is Some,
        clamped(effort, model).len() > 0 ==> allowed_efforts(text::trimmed(model))->0.contains(
            clamped(effort, model),
        ),
        default_effort(text::trimmed(model)) is Some ==> allowed_efforts(
            text::trimmed(model),
        )->0.contains(clamped(effort, model)),
{
    let m = text::trimmed(model);
    let i = choose|i: int| 0 <= i < 18 && (#[trigger] KNOWN_MODELS@[i])@ == m;
    lemma_known_distinct();
    assert(KNOWN_MODELS@[0]@ == GPT6_ASTRA@);
    assert(KNOWN_MODELS@[1]@ == GPT5_6_SOL@);
    assert(KNOWN_MODELS@[2]@ == GPT5_6_TERRA@);
    assert(KNOWN_MODELS@[3]@ == GPT5_6_LUNA@);
    assert(KNOWN_MODELS@[4]@ == GPT5_5@);
    assert(KNOWN_MODELS@[5]@ == GPT5_4@);
    assert(KNOWN_MODELS@[6]@ == GPT5_4_MINI@);
    assert(KNOWN_MODELS@[7]@ == GPT5_3_CODEX_SPARK@);
    assert(KNOWN_MODELS@[8]@ == GPT5_3_CODEX@);
    assert(KNOWN_MODELS@[9]@ == GPT5_2_CODEX@);
    assert(KNOWN_MODELS@[10]@ == GPT5_2@);
    assert(KNOWN_MODELS@[11]@ == GPT5_1_CODEX_MAX@);
    assert(KNOWN_MODELS@[12]@ == GPT5_1_CODEX_MINI@);
    assert(KNOWN_MODELS@[13]@ == GPT5_1_CODEX@);
    assert(KNOWN_MODELS@[14]@ == GPT5_1@);
    assert(KNOWN_MODELS@[15]@ == GPT5_CODEX_MINI@);
    assert(KNOWN_MODELS@[16]@ == GPT5_CODEX@);
    assert(KNOWN_MODELS@[17]@ == GPT5@);
    lemma_default_is_allowed(m);
}

/// A default is an effort that the model accepts.
proof fn lemma_default_is_allowed(m: Seq<char>)
    ensures
        default_effort(m) matches Some(d) ==> allowed_efforts(m) is Some && allowed_efforts(
            m,
        )->0.contains(d),
{
    lemma_known_distinct();
    if default_effort(m) is Some {
        let a = allowed_efforts(m)->0;
        let d = default_effort(m)->0;
        if d == "low"@ {
            assert(a[0] == d);
        } else if d == "medium"@ {
            assert(a[0] == d || a[1] == d);
        } else {
            assert(a[2] == d);
        }
        assert(a.contains(d));
    }
}

/// Clamping twice is clamping once.
pub proof fn law_clamped_is_idempotent(effort: Seq<char>, model: Seq<char>)
    ensures
        clamped(clamped(effort, model), model) == clamped(effort, model),
{
    let m = text::trimmed(model);
    let c = clamped(effort, model);
    text::lemma_trimmed_idempotent(effort);
    reveal_strlit("low");
    reveal_strlit("medium");
    reveal_strlit("high");
    assert(plain("low"@) && plain("medium"@) && plain("high"@));
    lemma_plain("low"@);
    lemma_plain("medium"@);
    lemma_plain("high"@);
    assert(text::trimmed(c) == c);
    lemma_default_is_allowed(m);
}

} // verus!
