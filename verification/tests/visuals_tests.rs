use clockit::visuals::{module_visual, variant_name, ModuleColorState, VARIANT_COUNT};

#[test]
fn first_module_gets_the_first_palette_entry() {
    let mut state = ModuleColorState::new();
    let v = module_visual(&mut state, "COS 132");
    assert_eq!(v.variant, "mod-purp");
    assert_eq!(v.label, "COS");
}

#[test]
fn distinct_modules_get_successive_palette_entries() {
    let mut state = ModuleColorState::new();
    let a = module_visual(&mut state, "COS 132");
    let b = module_visual(&mut state, "WTW 124");
    let c = module_visual(&mut state, "PHY 114");
    assert_eq!(a.variant, "mod-purp");
    assert_eq!(b.variant, "mod-blue");
    assert_eq!(c.variant, "mod-orange");
}

#[test]
fn a_module_keeps_its_colour_across_calls() {
    let mut state = ModuleColorState::new();
    let first = module_visual(&mut state, "COS 132");
    module_visual(&mut state, "WTW 124");
    let again = module_visual(&mut state, "COS 132");
    assert_eq!(first.variant, again.variant);
}

#[test]
fn trimming_and_case_do_not_change_the_module_key() {
    let mut state = ModuleColorState::new();
    let a = module_visual(&mut state, "cos 132");
    let b = module_visual(&mut state, "  COS 132  ");
    let c = module_visual(&mut state, "Cos 132");
    assert_eq!(a.variant, b.variant);
    assert_eq!(a.variant, c.variant);
    assert_eq!(a.variant, "mod-purp");
}

#[test]
fn palette_wraps_around_after_all_variants_are_used() {
    let mut state = ModuleColorState::new();
    let codes = ["A1", "B2", "C3", "D4", "E5", "F6", "G7", "H8", "I9"];
    let mut variants = Vec::new();
    for code in codes {
        variants.push(module_visual(&mut state, code).variant);
    }
    assert_eq!(variants[VARIANT_COUNT], variants[0]);
    assert_eq!(variants[VARIANT_COUNT], "mod-purp");
}

#[test]
fn label_is_the_first_three_alphanumerics_upper_cased() {
    let mut state = ModuleColorState::new();
    assert_eq!(module_visual(&mut state, "inf 154").label, "INF");
    assert_eq!(module_visual(&mut state, "c s-1").label, "CS1");
    assert_eq!(module_visual(&mut state, "ab").label, "AB");
}

#[test]
fn label_falls_back_when_nothing_alphanumeric_is_left() {
    let mut state = ModuleColorState::new();
    assert_eq!(module_visual(&mut state, " --- ").label, "MOD");
    assert_eq!(module_visual(&mut state, "").label, "MOD");
}

#[test]
fn palette_names_are_the_fixed_eight() {
    let names: Vec<&str> = (0..VARIANT_COUNT).map(variant_name).collect();
    assert_eq!(
        names,
        vec![
            "mod-purp", "mod-blue", "mod-orange", "mod-green", "mod-rose", "mod-teal",
            "mod-amber", "mod-slate"
        ]
    );
}
