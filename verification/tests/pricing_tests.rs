use codex_pacer::pricing::{
    display_name_for_model, extract_pricing_rows, html_unescape, model_color,
    normalize_model_id, normalize_official_model_id, official_catalog_rows,
    price_literal_text, pricing_component_blocks, resolve_pricing_key,
    should_include_official_pricing_model,
};

fn official_page() -> String {
    let parts = [
        "<astro-island component-export=\"TextTokenPricingTables\" props=\"{&quot;tier&quot;:[0,&quot;standard&quot;],&quot;rows&quot;:[1,[[1,[[0,&quot;gpt-5.5 (&lt;272K context length)&quot;],[0,5],[0,0.5],[0,30]]],[1,[[0,&quot;gpt-5.5 (&gt;=272K context length)&quot;],[0,10],[0,1],[0,45]]],[1,[[0,&quot;gpt-5.4 (&lt;272K context length)&quot;],[0,2.5],[0,0.25],[0,15]]],[1,[[0,&quot;gpt-5.4-mini&quot;],[0,0.75],[0,0.075],[0,4.5]]],[1,[[0,&quot;gpt-5.4-nano&quot;],[0,0.2],[0,0.02],[0,1.25]]]]]}\"></astro-island>",
        "<astro-island component-export=\"GroupedPricingTable\" props=\"{&quot;groups&quot;:[1,[[0,{&quot;model&quot;:[0,&quot;Codex&quot;],&quot;rows&quot;:[1,[[1,[[0,&quot;gpt-5.3-codex&quot;],[0,1.75],[0,0.175],[0,14]]]]]}]]]}\"></astro-island>",
    ];
    parts.join("")
}

fn price(text: &Option<String>) -> Option<f64> {
    text.as_deref()
        .and_then(price_literal_text)
        .and_then(|t| t.parse::<f64>().ok())
}

#[test]
fn parses_official_standard_short_context_pricing_rows() {
    let html = official_page();
    let blocks = pricing_component_blocks(&html);
    assert_eq!(blocks.len(), 2);

    let mut rows = Vec::new();
    for block in &blocks {
        for row in extract_pricing_rows(block) {
            if row.included && price(&row.input).is_some() && price(&row.output).is_some() {
                rows.push(row);
            }
        }
    }
    let ids: Vec<String> = rows.iter().map(|row| row.model_id.clone()).collect();
    let kept = official_catalog_rows(&ids).expect("required rows present");
    let catalog: Vec<_> = kept.iter().map(|&i| &rows[i]).collect();

    let gpt55 = catalog.iter().find(|row| row.model_id == "gpt-5.5").expect("gpt-5.5");
    assert_eq!(price(&gpt55.input), Some(5.0));
    assert_eq!(price(&gpt55.cached_input), Some(0.5));
    assert_eq!(price(&gpt55.output), Some(30.0));

    let codex = catalog
        .iter()
        .find(|row| row.model_id == "gpt-5.3-codex")
        .expect("gpt-5.3-codex");
    assert_eq!(price(&codex.input), Some(1.75));
    assert_eq!(price(&codex.cached_input), Some(0.175));
    assert_eq!(price(&codex.output), Some(14.0));
    assert_eq!(kept.len(), 5);
}

#[test]
fn a_missing_required_model_is_named() {
    let ids = vec!["gpt-5.5".to_string(), "gpt-5.4".to_string()];
    assert_eq!(
        official_catalog_rows(&ids),
        Err("OpenAI pricing page did not include required Standard short-context rows: gpt-5.4-mini, gpt-5.4-nano, gpt-5.3-codex.".to_string())
    );
}

#[test]
fn unwanted_components_and_unclosed_islands_are_skipped() {
    let html = "<astro-island component-export=\"Other\"></astro-island><astro-island GroupedPricingTable";
    assert!(pricing_component_blocks(html).is_empty());
}

#[test]
fn official_names_reduce_to_model_ids() {
    assert_eq!(normalize_official_model_id("GPT-5.5 (<272K context length)"), "gpt-5.5");
    assert_eq!(normalize_official_model_id("  o3  mini"), "o3");
    assert_eq!(normalize_official_model_id(" "), "unknown");
    assert_eq!(html_unescape("&amp;lt;&quot;x&quot;"), "&lt;\"x\"");
    assert!(should_include_official_pricing_model("gpt-5.4"));
    assert!(should_include_official_pricing_model("o4-mini"));
    assert!(should_include_official_pricing_model("my-codex"));
    assert!(!should_include_official_pricing_model("gpt-image-1"));
    assert!(!should_include_official_pricing_model("whisper"));
    assert!(!should_include_official_pricing_model(""));
}

#[test]
fn price_texts_are_cleaned() {
    assert_eq!(price_literal_text(" $$1,250.5 ").as_deref(), Some("1250.5"));
    assert_eq!(price_literal_text("-"), None);
    assert_eq!(price_literal_text("NuLL"), None);
    assert_eq!(price_literal_text("{\"x\":1}"), None);
    assert_eq!(price_literal_text("   "), None);
}

#[test]
fn pricing_keys_fall_back_by_prefix() {
    let catalog = vec![
        "gpt-5.4".to_string(),
        "gpt-5.4-mini".to_string(),
        "gpt-5.4-nano".to_string(),
        "gpt-5.5".to_string(),
    ];
    assert_eq!(resolve_pricing_key(&catalog, "GPT-5.4").as_deref(), Some("gpt-5.4"));
    assert_eq!(resolve_pricing_key(&catalog, "gpt-5.4-mini-2026").as_deref(), Some("gpt-5.4-mini"));
    assert_eq!(resolve_pricing_key(&catalog, "gpt-5.4-nano").as_deref(), Some("gpt-5.4-nano"));
    assert_eq!(resolve_pricing_key(&catalog, "gpt-5.5-pro"), None);
    assert_eq!(resolve_pricing_key(&catalog, "gpt-5.5-2026").as_deref(), Some("gpt-5.5"));
    assert_eq!(resolve_pricing_key(&catalog, "llama-3"), None);
}

#[test]
fn model_ids_are_normalized_and_named() {
    assert_eq!(normalize_model_id("  GPT-5.1-Codex "), "gpt-5.1-codex");
    assert_eq!(normalize_model_id("   "), "unknown");
    assert_eq!(normalize_model_id(&normalize_model_id(" GPT ")), "gpt");
    assert_eq!(display_name_for_model("codex-auto-review"), "Codex Auto Review");
    assert!(!model_color("gpt-5.1").is_empty());
}

/// The bundled fallback prices, by model: input, cached input and output
/// dollars per million tokens.
fn seed_prices() -> Vec<(String, (f64, f64, f64))> {
    [
        ("gpt-5.5", (5.00, 0.50, 30.00)),
        ("gpt-5.4", (2.50, 0.25, 15.00)),
        ("gpt-5.4-mini", (0.75, 0.075, 4.50)),
        ("gpt-5.4-nano", (0.20, 0.02, 1.25)),
        ("gpt-5.3-codex", (1.75, 0.175, 14.00)),
        ("gpt-5.3-codex-spark", (1.75, 0.175, 14.00)),
        ("gpt-5.2", (1.75, 0.175, 14.00)),
        ("gpt-5.2-codex", (1.75, 0.175, 14.00)),
        ("gpt-5-codex", (1.25, 0.125, 10.00)),
        ("gpt-5.1-codex-max", (1.25, 0.125, 10.00)),
        ("gpt-5.1-codex", (1.25, 0.125, 10.00)),
        ("gpt-5.1-codex-mini", (0.25, 0.025, 2.00)),
    ]
    .into_iter()
    .map(|(id, prices)| (id.to_string(), prices))
    .collect()
}

fn resolved(model_id: &str) -> Option<(f64, f64, f64)> {
    let seed = seed_prices();
    let ids: Vec<String> = seed.iter().map(|(id, _)| id.clone()).collect();
    let key = resolve_pricing_key(&ids, model_id)?;
    seed.into_iter().find(|(id, _)| *id == key).map(|(_, prices)| prices)
}

#[test]
fn resolve_pricing_distinguishes_gpt_54_variants() {
    let flagship = resolved("gpt-5.4").expect("gpt-5.4 pricing");
    let mini = resolved("gpt-5.4-mini").expect("gpt-5.4-mini pricing");
    let nano = resolved("gpt-5.4-nano").expect("gpt-5.4-nano pricing");
    assert_eq!(flagship.0, 2.50);
    assert_eq!(mini.0, 0.75);
    assert_eq!(nano.0, 0.20);
    assert!(flagship.0 > mini.0);
    assert!(mini.0 > nano.0);
}

#[test]
fn resolve_pricing_includes_gpt_55() {
    let pricing = resolved("gpt-5.5").expect("gpt-5.5 pricing");
    assert_eq!(pricing.0, 5.00);
    assert_eq!(pricing.1, 0.50);
    assert_eq!(pricing.2, 30.00);
}
