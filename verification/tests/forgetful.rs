//! Tests of the forgetting-level hierarchy, the wrapper and recovery.

use hgk_desktop::forgotten::Forgotten;
use hgk_desktop::levels::{All, Context, Design, ForgetLevel, Impl, Nothing};
use hgk_desktop::recover::{is_recoverable, Concept, Recoverable, Workflow};

#[test]
fn test_level_depth_order() {
    assert_eq!(Nothing::DEPTH, 0);
    assert_eq!(Context::DEPTH, 1);
    assert_eq!(Design::DEPTH, 2);
    assert_eq!(Impl::DEPTH, 3);
    assert_eq!(All::DEPTH, 4);
}

#[test]
fn test_level_names() {
    assert_eq!(Nothing::NAME, "Nothing");
    assert_eq!(Context::NAME, "Context");
    assert_eq!(All::NAME, "All");
}

#[test]
fn test_forgotten_new() {
    let f = Forgotten::new("hello");
    assert_eq!(f.depth(), 0);
    assert_eq!(f.level_name(), "Nothing");
    assert_eq!(*f.peek(), "hello");
}

#[test]
fn test_forget_one_level() {
    let f = Forgotten::new("concept");
    let f_ctx: Forgotten<&str, Context> = f.forget();
    assert_eq!(f_ctx.depth(), 1);
    assert_eq!(*f_ctx.peek(), "concept");
}

#[test]
fn test_forget_chain() {
    let f = Forgotten::new("data");
    let f1 = f.forget::<Context>();
    let f2 = f1.forget::<Design>();
    let f3 = f2.forget::<Impl>();
    let f4 = f3.forget::<All>();

    assert_eq!(f4.depth(), 4);
    assert_eq!(*f4.peek(), "data");
}

#[test]
fn test_forget_skip_levels() {
    let f = Forgotten::new(42);
    let f_impl: Forgotten<i32, Impl> = f.forget();
    assert_eq!(f_impl.depth(), 3);
}

#[test]
fn test_from_nothing_to_context() {
    let f = Forgotten::new("via From");
    let f_ctx: Forgotten<&str, Context> = f.into();
    assert_eq!(f_ctx.depth(), 1);
}

#[test]
fn test_concept_recoverable_at_impl() {
    let concept = Concept {
        name: "Noēsis".into(),
        definition: "認識の本質的機能".into(),
    };

    let forgotten = Forgotten::new(concept.clone()).forget::<Impl>();
    let recovered = Concept::recover(forgotten);

    assert_eq!(recovered, concept);
}

#[test]
fn test_concept_recoverable_at_context() {
    let concept = Concept {
        name: "FEP".into(),
        definition: "自由エネルギー原理".into(),
    };

    let forgotten = Forgotten::new(concept.clone()).forget::<Context>();
    let recovered = Concept::recover(forgotten);

    assert_eq!(recovered, concept);
}

#[test]
fn test_workflow_recoverable_at_context_only() {
    let wf = Workflow {
        id: "noe".into(),
        steps: vec!["Phase 1".into(), "Phase 2".into()],
        design_rationale: "FEP に基づく深い認識".into(),
    };

    let forgotten = Forgotten::new(wf.clone()).forget::<Context>();
    let recovered = Workflow::recover(forgotten);

    assert_eq!(recovered, wf);
}

#[test]
fn test_is_recoverable_concept_impl() {
    assert!(is_recoverable::<Concept, Impl>());
}

#[test]
fn test_is_recoverable_workflow_context() {
    assert!(is_recoverable::<Workflow, Context>());
}

#[test]
fn test_digestion_flow() {
    let paper_concept = Concept {
        name: "Terminal Coalgebra".into(),
        definition: "最大不動点としての収束構造".into(),
    };

    let phase0 = Forgotten::new(paper_concept.clone());
    let phase1 = phase0.forget::<Context>();
    let phase2 = phase1.forget::<Design>();
    let phase3 = phase2.forget::<Impl>();

    let recovered = Concept::recover(phase3);
    assert_eq!(recovered.name, "Terminal Coalgebra");
    assert_eq!(recovered.definition, "最大不動点としての収束構造");
}

#[test]
fn test_display() {
    let f = Forgotten::new("HGK");
    let s = f.display_string();
    assert!(s.contains("Nothing"));
    assert!(s.contains("HGK"));
}

#[test]
fn test_compose_static() {
    assert_eq!(hgk_desktop::compose::sequence_compose::<Context, Impl>(), 3);
    assert_eq!(hgk_desktop::compose::convergent_compose::<Context, Impl>(), 1);
    assert_eq!(hgk_desktop::compose::divergent_compose::<Context, Impl>(), 3);
    assert_eq!(hgk_desktop::compose::fusion_compose::<Nothing, Design>(), 2);
    assert_eq!(hgk_desktop::compose::parallel_compose::<Nothing, Design>(), 0);
}

#[test]
fn test_compose_dyn() {
    assert_eq!(hgk_desktop::compose::seq_compose_dyn(&[]), 2);
    assert_eq!(hgk_desktop::compose::seq_compose_dyn(&[1, 3, 2]), 3);
    assert_eq!(hgk_desktop::compose::osc_compose_dyn(1, 3), 1);
    assert_eq!(hgk_desktop::compose::osc_compose_dyn(4, 0), 0);
}
