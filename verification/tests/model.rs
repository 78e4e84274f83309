use codex_proxy::model::GPT5;
use codex_proxy::model::GPT5_1;
use codex_proxy::model::GPT5_1_CODEX;
use codex_proxy::model::GPT5_1_CODEX_MAX;
use codex_proxy::model::GPT5_1_CODEX_MINI;
use codex_proxy::model::GPT5_2;
use codex_proxy::model::GPT5_2_CODEX;
use codex_proxy::model::GPT5_3_CODEX;
use codex_proxy::model::GPT5_3_CODEX_SPARK;
use codex_proxy::model::GPT5_4;
use codex_proxy::model::GPT5_4_MINI;
use codex_proxy::model::GPT5_5;
use codex_proxy::model::GPT5_6_LUNA;
use codex_proxy::model::GPT5_6_SOL;
use codex_proxy::model::GPT5_6_TERRA;
use codex_proxy::model::GPT5_CODEX;
use codex_proxy::model::GPT5_CODEX_MINI;
use codex_proxy::model::GPT6_ASTRA;
use codex_proxy::model::KNOWN_MODELS;
use codex_proxy::model::clamp_reasoning_effort_for_model;
use codex_proxy::model::effort_suffix;
use codex_proxy::model::exact_model;
use codex_proxy::model::model_allowed_efforts;
use codex_proxy::model::normalize_model;
use codex_proxy::model::normalize_reasoning_effort;
// ── normalize_model ──────────────────────────────────────────────

#[test]
fn normalize_model_codex_lowercase() {
    assert_eq!(normalize_model("gpt-5-codex"), GPT5_CODEX);
}

#[test]
fn normalize_model_codex_uppercase() {
    assert_eq!(normalize_model("GPT-5-CODEX"), GPT5_CODEX);
}

#[test]
fn normalize_model_codex_inside_name() {
    assert_eq!(
        normalize_model("gpt-5-mini-codex-preview"),
        GPT5_1_CODEX_MINI
    );
}

#[test]
fn normalize_model_non_codex() {
    assert_eq!(normalize_model("gpt-5-mini"), GPT5_1_CODEX_MINI);
}

#[test]
fn normalize_model_gpt4o_mini() {
    assert_eq!(normalize_model("gpt-4o-mini"), GPT5_1_CODEX_MINI);
}

#[test]
fn normalize_model_gpt4o_base() {
    assert_eq!(normalize_model("gpt-4o"), GPT5_1_CODEX_MINI);
}

#[test]
fn normalize_model_empty() {
    assert_eq!(normalize_model(""), GPT5);
}

#[test]
fn normalize_model_gpt51_base() {
    assert_eq!(normalize_model("gpt-5.1"), GPT5_1);
}

#[test]
fn normalize_model_gpt52_base() {
    assert_eq!(normalize_model("gpt-5.2"), GPT5_2);
}

#[test]
fn normalize_model_gpt52_with_suffix() {
    assert_eq!(normalize_model("gpt-5.2-high"), GPT5_2);
}

#[test]
fn normalize_model_gpt52_codex_base() {
    assert_eq!(normalize_model("gpt-5.2-codex"), GPT5_2_CODEX);
}

#[test]
fn normalize_model_gpt52_codex_with_suffix() {
    assert_eq!(normalize_model("gpt-5.2-codex-xhigh"), GPT5_2_CODEX);
}

#[test]
fn normalize_model_gpt53_explicit() {
    assert_eq!(normalize_model("gpt-5.3-codex"), GPT5_3_CODEX);
}

#[test]
fn normalize_model_gpt53_with_effort_suffix() {
    assert_eq!(normalize_model("gpt-5.3-codex-high"), GPT5_3_CODEX);
}

#[test]
fn normalize_model_gpt53_spark() {
    assert_eq!(normalize_model("gpt-5.3-codex-spark"), GPT5_3_CODEX_SPARK);
}

#[test]
fn normalize_model_gpt53_spark_with_effort_suffix() {
    assert_eq!(
        normalize_model("gpt-5.3-codex-spark-xhigh"),
        GPT5_3_CODEX_SPARK
    );
}

#[test]
fn normalize_model_gpt54_base() {
    assert_eq!(normalize_model("gpt-5.4"), GPT5_4);
}

#[test]
fn normalize_model_gpt54_with_effort_suffix() {
    assert_eq!(normalize_model("gpt-5.4-high"), GPT5_4);
}

#[test]
fn normalize_model_gpt54_mini_base() {
    assert_eq!(normalize_model("gpt-5.4-mini"), GPT5_4_MINI);
}

#[test]
fn normalize_model_gpt54_mini_with_effort_suffix() {
    // The "-high" effort suffix is stripped first, leaving "gpt-5.4-mini",
    // which must map to the mini and not collapse to full gpt-5.4.
    assert_eq!(normalize_model("gpt-5.4-mini-high"), GPT5_4_MINI);
}

#[test]
fn normalize_model_gpt54_mini_does_not_collapse_to_full() {
    // Regression guard for the substring-ordering bug: "gpt-5.4-mini"
    // contains "gpt-5.4", so the mini check must run first.
    assert_ne!(normalize_model("gpt-5.4-mini"), GPT5_4);
}

#[test]
fn clamp_effort_gpt54_mini_defaults_to_medium() {
    assert_eq!(clamp_reasoning_effort_for_model("", GPT5_4_MINI), "medium");
}

#[test]
fn normalize_model_gpt55_base() {
    assert_eq!(normalize_model("gpt-5.5"), GPT5_5);
}

#[test]
fn normalize_model_gpt55_with_suffix() {
    assert_eq!(normalize_model("gpt-5.5-xhigh"), GPT5_5);
}

// ---- gpt-5.6 tier family ----

#[test]
fn normalize_model_gpt56_bare_resolves_to_sol() {
    assert_eq!(normalize_model("gpt-5.6"), GPT5_6_SOL);
}

#[test]
fn normalize_model_gpt56_sol_base() {
    assert_eq!(normalize_model("gpt-5.6-sol"), GPT5_6_SOL);
}

#[test]
fn normalize_model_gpt56_terra_base() {
    assert_eq!(normalize_model("gpt-5.6-terra"), GPT5_6_TERRA);
}

#[test]
fn normalize_model_gpt56_luna_base() {
    assert_eq!(normalize_model("gpt-5.6-luna"), GPT5_6_LUNA);
}

#[test]
fn normalize_model_gpt56_sol_with_effort_suffix() {
    assert_eq!(normalize_model("gpt-5.6-sol-high"), GPT5_6_SOL);
}

#[test]
fn normalize_model_gpt56_terra_with_effort_suffix() {
    assert_eq!(normalize_model("gpt-5.6-terra-xhigh"), GPT5_6_TERRA);
}

#[test]
fn normalize_model_gpt56_luna_with_effort_suffix() {
    assert_eq!(normalize_model("gpt-5.6-luna-low"), GPT5_6_LUNA);
}

#[test]
fn normalize_model_gpt56_sol_uppercase() {
    assert_eq!(normalize_model("GPT-5.6-SOL"), GPT5_6_SOL);
}

#[test]
fn normalize_model_gpt56_unknown_tier_does_not_collapse_to_gpt5() {
    // An unrecognized 5.6 variant must not silently fall back to gpt-5.
    // "gpt-5.6-pro" is not a real tier; we assert it resolves to the bare
    // family alias (gpt-5.6) → sol, NOT to gpt-5.
    assert_eq!(normalize_model("gpt-5.6-pro"), GPT5_6_SOL);
}

#[test]
fn normalize_model_gpt51_with_suffix() {
    assert_eq!(normalize_model("gpt-5.1-high"), GPT5_1);
}

#[test]
fn normalize_model_gpt51_codex() {
    assert_eq!(normalize_model("gpt-5.1-codex"), GPT5_1_CODEX);
}

#[test]
fn normalize_model_gpt51_codex_max() {
    assert_eq!(normalize_model("gpt-5.1-codex-max"), GPT5_1_CODEX_MAX);
}

#[test]
fn normalize_model_gpt51_codex_max_with_suffix() {
    assert_eq!(normalize_model("gpt-5.1-codex-max-xhigh"), GPT5_1_CODEX_MAX);
}

#[test]
fn normalize_model_gpt51_codex_mini() {
    assert_eq!(normalize_model("gpt-5.1-codex-mini"), GPT5_1_CODEX_MINI);
}

#[test]
fn normalize_model_gpt51_codex_mini_with_suffix() {
    assert_eq!(
        normalize_model("gpt-5.1-codex-mini-high"),
        GPT5_1_CODEX_MINI
    );
}

#[test]
fn normalize_model_gpt5_codex_mini() {
    assert_eq!(normalize_model("gpt-5-codex-mini"), GPT5_CODEX_MINI);
}

#[test]
fn normalize_model_gpt5_codex_mini_with_suffix() {
    assert_eq!(normalize_model("gpt-5-codex-mini-low"), GPT5_CODEX_MINI);
}

// ── normalize_reasoning_effort ───────────────────────────────────

#[test]
fn effort_explicit_minimal() {
    assert_eq!(normalize_reasoning_effort("minimal"), "minimal");
}

#[test]
fn effort_explicit_low() {
    assert_eq!(normalize_reasoning_effort("low"), "low");
}

#[test]
fn effort_explicit_medium() {
    assert_eq!(normalize_reasoning_effort("medium"), "medium");
}

#[test]
fn effort_explicit_high() {
    assert_eq!(normalize_reasoning_effort("high"), "high");
}

#[test]
fn effort_explicit_xhigh() {
    assert_eq!(normalize_reasoning_effort("xhigh"), "xhigh");
}

#[test]
fn effort_none_maps_to_low() {
    assert_eq!(normalize_reasoning_effort("none"), "low");
}

#[test]
fn effort_uppercase() {
    assert_eq!(normalize_reasoning_effort("MEDIUM"), "medium");
}

#[test]
fn effort_empty() {
    assert_eq!(normalize_reasoning_effort(""), "");
}

#[test]
fn effort_invalid() {
    assert_eq!(normalize_reasoning_effort("aggressive"), "");
}

// ── clamp_reasoning_effort_for_model ─────────────────────────────

#[test]
fn clamp_gpt5_allows_minimal() {
    assert_eq!(clamp_reasoning_effort_for_model("minimal", GPT5), "minimal");
}

#[test]
fn clamp_gpt51_disallows_minimal() {
    assert_eq!(clamp_reasoning_effort_for_model("minimal", GPT5_1), "low");
}

#[test]
fn clamp_gpt51_default_when_empty() {
    assert_eq!(clamp_reasoning_effort_for_model("", GPT5_1), "low");
}

#[test]
fn clamp_gpt52_allows_xhigh() {
    assert_eq!(clamp_reasoning_effort_for_model("xhigh", GPT5_2), "xhigh");
}

#[test]
fn clamp_gpt52_default_when_empty() {
    assert_eq!(clamp_reasoning_effort_for_model("", GPT5_2), "medium");
}

#[test]
fn clamp_gpt54_disallows_minimal() {
    assert_eq!(
        clamp_reasoning_effort_for_model("minimal", GPT5_4),
        "medium"
    );
}

#[test]
fn clamp_gpt52_codex_allows_xhigh() {
    assert_eq!(
        clamp_reasoning_effort_for_model("xhigh", GPT5_2_CODEX),
        "xhigh"
    );
}

#[test]
fn clamp_gpt52_codex_default() {
    assert_eq!(clamp_reasoning_effort_for_model("", GPT5_2_CODEX), "medium");
}

#[test]
fn clamp_gpt53_codex_default() {
    assert_eq!(clamp_reasoning_effort_for_model("", GPT5_3_CODEX), "medium");
}

#[test]
fn clamp_gpt53_codex_spark_default() {
    assert_eq!(
        clamp_reasoning_effort_for_model("", GPT5_3_CODEX_SPARK),
        "high"
    );
}

#[test]
fn clamp_gpt53_codex_spark_allows_xhigh() {
    assert_eq!(
        clamp_reasoning_effort_for_model("xhigh", GPT5_3_CODEX_SPARK),
        "xhigh"
    );
}

#[test]
fn clamp_gpt55_default() {
    assert_eq!(clamp_reasoning_effort_for_model("", GPT5_5), "medium");
}

#[test]
fn clamp_gpt56_sol_allows_xhigh() {
    assert_eq!(
        clamp_reasoning_effort_for_model("xhigh", GPT5_6_SOL),
        "xhigh"
    );
}

#[test]
fn clamp_gpt56_sol_default_when_empty() {
    assert_eq!(clamp_reasoning_effort_for_model("", GPT5_6_SOL), "low");
}

#[test]
fn clamp_gpt56_sol_disallows_minimal() {
    assert_eq!(
        clamp_reasoning_effort_for_model("minimal", GPT5_6_SOL),
        "low"
    );
}

#[test]
fn clamp_gpt56_terra_default_when_empty() {
    assert_eq!(clamp_reasoning_effort_for_model("", GPT5_6_TERRA), "medium");
}

#[test]
fn clamp_gpt56_terra_clamps_invalid_to_default() {
    // "aggressive" is not a valid effort; after normalize it's "" but clamp
    // is called with the already-normalized value, so an out-of-set effort
    // falls back to the model default. (This test used to use "ultra",
    // which is now a real level terra accepts — hence "turbo".)
    assert_eq!(
        clamp_reasoning_effort_for_model("turbo", GPT5_6_TERRA),
        "medium"
    );
}

#[test]
fn clamp_gpt56_luna_default_when_empty() {
    assert_eq!(clamp_reasoning_effort_for_model("", GPT5_6_LUNA), "medium");
}

#[test]
fn clamp_gpt5_codex_mini_clamps_low() {
    assert_eq!(
        clamp_reasoning_effort_for_model("low", GPT5_CODEX_MINI),
        "medium"
    );
}

#[test]
fn clamp_gpt5_codex_mini_default() {
    assert_eq!(
        clamp_reasoning_effort_for_model("", GPT5_CODEX_MINI),
        "medium"
    );
}

#[test]
fn clamp_gpt51_codex_allows_high() {
    assert_eq!(
        clamp_reasoning_effort_for_model("high", GPT5_1_CODEX),
        "high"
    );
}

#[test]
fn clamp_gpt51_codex_max_allows_xhigh() {
    assert_eq!(
        clamp_reasoning_effort_for_model("xhigh", GPT5_1_CODEX_MAX),
        "xhigh"
    );
}

#[test]
fn clamp_gpt51_codex_max_minimal_to_low() {
    assert_eq!(
        clamp_reasoning_effort_for_model("minimal", GPT5_1_CODEX_MAX),
        "low"
    );
}

// ---- gpt-6 family ----

#[test]
fn normalize_model_gpt6_astra_base() {
    assert_eq!(normalize_model("gpt-6-astra"), GPT6_ASTRA);
}

#[test]
fn normalize_model_gpt6_astra_uppercase() {
    assert_eq!(normalize_model("GPT-6-ASTRA"), GPT6_ASTRA);
}

#[test]
fn normalize_model_gpt6_astra_with_effort_suffixes() {
    for id in [
        "gpt-6-astra-low",
        "gpt-6-astra-medium",
        "gpt-6-astra-high",
        "gpt-6-astra-xhigh",
        "gpt-6-astra-max",
        "gpt-6-astra-ultra",
    ] {
        assert_eq!(normalize_model(id), GPT6_ASTRA, "{id}");
    }
}

#[test]
fn normalize_model_gpt6_bare_resolves_to_astra() {
    assert_eq!(normalize_model("gpt-6"), GPT6_ASTRA);
}

#[test]
fn normalize_model_gpt6_unknown_variant_does_not_collapse_to_gpt5() {
    // The defect this guard exists for: before gpt-6 was known, every
    // 6-series id fell through to the generic gpt-5 fallback and was served
    // as gpt-5 with no error to the caller.
    assert_eq!(normalize_model("gpt-6-nova"), GPT6_ASTRA);
    assert_ne!(normalize_model("gpt-6-nova"), GPT5);
    // A future point release stays in the family too.
    assert_eq!(normalize_model("gpt-6.1"), GPT6_ASTRA);
    assert_eq!(normalize_model("gpt-6.1-nova"), GPT6_ASTRA);
}

#[test]
fn normalize_model_gpt6_guard_does_not_swallow_lookalikes() {
    // `starts_with("gpt-6")` alone would route these to astra. They are not
    // gpt-6 models, so they take the generic fallback like any other
    // unknown id rather than being served as the family flagship.
    for id in ["gpt-60", "gpt-6experimental", "gpt-64k"] {
        assert_eq!(normalize_model(id), GPT5, "{id}");
    }
}

#[test]
fn normalize_model_gpt6_astra_is_not_gpt5() {
    assert_ne!(normalize_model("gpt-6-astra"), GPT5);
}

// ---- `-max` is both an effort suffix and part of a real model id ----

#[test]
fn normalize_model_codex_max_survives_max_effort_suffix() {
    // Regression guard for adding "-max" to EFFORT_SUFFIXES: stripping it
    // blindly would rewrite gpt-5.1-codex-max to gpt-5.1-codex.
    assert_eq!(normalize_model("gpt-5.1-codex-max"), GPT5_1_CODEX_MAX);
    assert_eq!(normalize_model("GPT-5.1-CODEX-MAX"), GPT5_1_CODEX_MAX);
}

#[test]
fn normalize_model_codex_max_with_effort_suffix_still_resolves() {
    assert_eq!(normalize_model("gpt-5.1-codex-max-high"), GPT5_1_CODEX_MAX);
    assert_eq!(normalize_model("gpt-5.1-codex-max-xhigh"), GPT5_1_CODEX_MAX);
}

// ---- max / ultra effort levels ----

#[test]
fn effort_explicit_max() {
    assert_eq!(normalize_reasoning_effort("max"), "max");
}

#[test]
fn effort_explicit_ultra() {
    assert_eq!(normalize_reasoning_effort("ultra"), "ultra");
}

#[test]
fn effort_ultra_uppercase() {
    assert_eq!(normalize_reasoning_effort("ULTRA"), "ultra");
}

#[test]
fn clamp_gpt6_astra_default_is_low() {
    assert_eq!(clamp_reasoning_effort_for_model("", GPT6_ASTRA), "low");
}

#[test]
fn clamp_gpt6_astra_allows_max_and_ultra() {
    assert_eq!(clamp_reasoning_effort_for_model("max", GPT6_ASTRA), "max");
    assert_eq!(
        clamp_reasoning_effort_for_model("ultra", GPT6_ASTRA),
        "ultra"
    );
}

#[test]
fn clamp_gpt6_astra_disallows_minimal() {
    assert_eq!(
        clamp_reasoning_effort_for_model("minimal", GPT6_ASTRA),
        "low"
    );
}

#[test]
fn clamp_gpt56_sol_allows_max_and_ultra() {
    assert_eq!(clamp_reasoning_effort_for_model("max", GPT5_6_SOL), "max");
    assert_eq!(
        clamp_reasoning_effort_for_model("ultra", GPT5_6_SOL),
        "ultra"
    );
}

#[test]
fn clamp_gpt56_luna_allows_max_but_not_ultra() {
    // Upstream lists `max` but not `ultra` for luna; an ultra request
    // clamps to luna's default rather than being passed through.
    assert_eq!(clamp_reasoning_effort_for_model("max", GPT5_6_LUNA), "max");
    assert_eq!(
        clamp_reasoning_effort_for_model("ultra", GPT5_6_LUNA),
        "medium"
    );
}

#[test]
fn clamp_gpt52_rejects_ultra() {
    // The 5.x line never gained max/ultra; they clamp to the model default.
    assert_eq!(clamp_reasoning_effort_for_model("ultra", GPT5_2), "medium");
    assert_eq!(clamp_reasoning_effort_for_model("max", GPT5_2), "medium");
}

#[test]
fn every_known_model_normalizes_to_itself() {
    // The exact-id table and the substring chain must not disagree.
    for id in KNOWN_MODELS.iter() {
        assert_eq!(normalize_model(id), *id, "{id}");
    }
}

// ---- effort_suffix: the read half of EFFORT_SUFFIXES ----

#[test]
fn effort_suffix_reads_each_level() {
    for (id, want) in [
        ("gpt-6-astra-low", "low"),
        ("gpt-6-astra-medium", "medium"),
        ("gpt-6-astra-high", "high"),
        ("gpt-6-astra-xhigh", "xhigh"),
        ("gpt-6-astra-max", "max"),
        ("gpt-6-astra-ultra", "ultra"),
        ("gpt-5-minimal", "minimal"),
        ("GPT-5.2-HIGH", "high"),
    ] {
        assert_eq!(effort_suffix(id), Some(want), "{id}");
    }
}

#[test]
fn effort_suffix_none_for_bare_ids() {
    for id in ["gpt-6-astra", "gpt-5.2", "gpt-5.6-sol", ""] {
        assert_eq!(effort_suffix(id), None, "{id}");
    }
}

#[test]
fn effort_suffix_none_for_codex_max_model_id() {
    // The whole reason exact_model is consulted first: codex-max is a
    // model, not a `max` effort request.
    assert_eq!(effort_suffix("gpt-5.1-codex-max"), None);
    // ...but an effort suffix *on top of* it still reads.
    assert_eq!(effort_suffix("gpt-5.1-codex-max-xhigh"), Some("xhigh"));
}

#[test]
fn effort_suffix_agrees_with_normalize_model() {
    // Whatever normalize_model strips, effort_suffix must report — one
    // vocabulary, read and stripped the same way.
    for base in KNOWN_MODELS.iter() {
        for effort in ["low", "medium", "high", "xhigh", "max", "ultra"] {
            let id = format!("{base}-{effort}");
            // One exception, by design: when base+effort spells another
            // real model id, the model id wins in both halves. See
            // `suffix_encoding_cannot_reach_codex_at_max_effort`.
            if exact_model(&id).is_some() {
                continue;
            }
            assert_eq!(normalize_model(&id), *base, "normalize {id}");
            assert_eq!(effort_suffix(&id), Some(effort), "suffix {id}");
        }
    }
}

#[test]
fn suffix_encoding_cannot_reach_codex_at_max_effort() {
    // "gpt-5.1-codex" + max effort spells "gpt-5.1-codex-max", a different
    // (stronger) model. The id wins, so this pair is simply unreachable
    // through the suffix encoding — callers wanting it must send an
    // explicit `reasoning_effort`. Harmless in practice: gpt-5.1-codex
    // does not accept `max` anyway, so the request would clamp.
    assert_eq!(normalize_model("gpt-5.1-codex-max"), GPT5_1_CODEX_MAX);
    assert_eq!(effort_suffix("gpt-5.1-codex-max"), None);
    assert!(
        !model_allowed_efforts(GPT5_1_CODEX)
            .unwrap()
            .contains(&"max")
    );
}

#[test]
fn a_level_that_a_model_does_not_accept_never_reaches_it() {
    for model in [GPT5, GPT5_CODEX] {
        for effort in ["max", "ultra", "xhigh"] {
            assert_eq!(clamp_reasoning_effort_for_model(effort, model), "");
        }
        assert_eq!(clamp_reasoning_effort_for_model("minimal", model), "minimal");
    }
    assert_eq!(clamp_reasoning_effort_for_model("ultra", "another"), "ultra");
}

#[test]
fn a_variant_of_gpt55_stays_in_its_family() {
    for id in ["gpt-5.5-pro", "gpt-5.5-mini", "gpt-5.5-pro-high", "GPT-5.5-Codex"] {
        assert_eq!(normalize_model(id), GPT5_5, "{id}");
    }
}
