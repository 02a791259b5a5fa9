use dpc::output::codegen::CodegenCx;
use dpc::output::gen_fns::{gen_fns, gen_init};

#[test]
fn nothing_to_set_up() {
    let ccx = CodegenCx::new(None);
    assert!(gen_init(&ccx).is_none());
    let (fns, tags) = gen_fns(&ccx, "pack");
    assert!(fns.is_empty());
    assert!(tags.is_empty());
}

#[test]
fn literals_are_set_in_increasing_order() {
    let mut ccx = CodegenCx::new(None);
    ccx.score_literals.insert(5);
    ccx.score_literals.insert(-2);
    ccx.score_literals.insert(300);
    let init = gen_init(&ccx).expect("literals need a setup function");
    assert_eq!(
        init.contents,
        vec![
            "scoreboard objectives add _l dummy".to_string(),
            "scoreboard players set %l-2 _l -2".to_string(),
            "scoreboard players set %l5 _l 5".to_string(),
            "scoreboard players set %l300 _l 300".to_string(),
        ]
    );
}

#[test]
fn registers_add_their_objective() {
    let mut ccx = CodegenCx::new(None);
    ccx.racx.new_reg();
    let init = gen_init(&ccx).expect("registers need a setup function");
    assert_eq!(init.contents, vec!["scoreboard objectives add _r dummy".to_string()]);
    ccx.score_literals.insert(1);
    let init = gen_init(&ccx).unwrap();
    assert_eq!(
        init.contents,
        vec![
            "scoreboard objectives add _r dummy".to_string(),
            "scoreboard objectives add _l dummy".to_string(),
            "scoreboard players set %l1 _l 1".to_string(),
        ]
    );
}

#[test]
fn setup_function_runs_on_load() {
    let mut ccx = CodegenCx::new(None);
    ccx.score_literals.insert(7);
    let (fns, tags) = gen_fns(&ccx, "pack");
    assert_eq!(fns.len(), 1);
    assert_eq!(fns[0].0, "pack:dpc_init");
    assert_eq!(fns[0].1.contents.len(), 2);
    assert_eq!(tags.len(), 1);
    assert_eq!(tags[0].0, "minecraft:load");
    assert_eq!(tags[0].1.inner.values, vec!["pack:dpc_init".to_string()]);

    let (fns, tags) = gen_fns(&ccx, "dpc");
    assert_eq!(fns[0].0, "dpc:init");
    assert_eq!(tags[0].1.inner.values, vec!["dpc:init".to_string()]);
}
