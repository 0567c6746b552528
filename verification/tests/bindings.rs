use compute_toy::bind::{
    final_target, resolve, within_limits, BindingDeclaration, BindingKind, DeviceLimits,
    SlotDecision,
};
use compute_toy::pp::{preprocess, ErrorKind};

const LIMITS: DeviceLimits =
    DeviceLimits { max_uniform_bytes: 65536, max_storage_bytes: 1 << 27, max_texture_dimension: 8192 };

fn table(program: &str) -> Vec<BindingDeclaration> {
    preprocess(program, &vec![], true).unwrap().bindings
}

#[test]
fn a_first_program_allocates_every_slot() {
    let declared = table("#storage a 64 u32\n#texture t 4 4\n");
    let r = resolve(&vec![], &declared, &LIMITS).unwrap();
    assert_eq!(
        r.table,
        vec![
            BindingKind::UniformBlock { bytes: 16 },
            BindingKind::StorageBuffer { bytes: 64 },
            BindingKind::StorageTexture { width: 4, height: 4 },
        ]
    );
    assert_eq!(r.decisions, vec![SlotDecision::Reallocate; 3]);
}

#[test]
fn an_unchanged_binding_set_keeps_its_storage() {
    let first = resolve(&vec![], &table("#storage acc 4096 u32\n#texture t 4 4\n"), &LIMITS).unwrap();
    // The same kinds and sizes under other names, in a program with other code.
    let again = table("// edited\n#storage sum 0x1000 i32\n#texture out 4 4\nfn main() {}\n");
    let second = resolve(&first.table, &again, &LIMITS).unwrap();
    assert_eq!(second.decisions, vec![SlotDecision::Keep; 3]);
    assert_eq!(second.table, first.table);
}

#[test]
fn a_changed_size_reallocates_that_slot_alone() {
    let first = resolve(&vec![], &table("#storage a 64 u32\n#storage b 64 u32\n#storage c 64 u32\n"), &LIMITS).unwrap();
    let second = resolve(
        &first.table,
        &table("#storage a 64 u32\n#storage b 128 u32\n#storage c 64 u32\n"),
        &LIMITS,
    )
    .unwrap();
    assert_eq!(
        second.decisions,
        vec![SlotDecision::Keep, SlotDecision::Keep, SlotDecision::Reallocate, SlotDecision::Keep]
    );
}

#[test]
fn a_changed_kind_reallocates_the_slot() {
    let first = resolve(&vec![], &table("#storage a 64 u32\n"), &LIMITS).unwrap();
    let second = resolve(&first.table, &table("#texture a 8 8\n"), &LIMITS).unwrap();
    assert_eq!(second.decisions, vec![SlotDecision::Keep, SlotDecision::Reallocate]);
}

#[test]
fn slots_that_are_gone_are_dropped() {
    let first = resolve(&vec![], &table("#storage a 64 u32\n#storage b 64 u32\n"), &LIMITS).unwrap();
    let second = resolve(&first.table, &table("#uniform u\n"), &LIMITS).unwrap();
    assert_eq!(
        second.decisions,
        vec![SlotDecision::Reallocate, SlotDecision::Drop, SlotDecision::Drop]
    );
    assert_eq!(second.table, vec![BindingKind::UniformBlock { bytes: 20 }]);
}

#[test]
fn a_binding_beyond_the_limits_is_an_error_at_its_line() {
    let declared = table("#storage ok 64 u32\n\n#storage big 0x8000001 u32\n#texture wide 9000 4\n");
    let e = resolve(&vec![], &declared, &LIMITS).unwrap_err();
    assert_eq!(e.kind, ErrorKind::ResourceLimit);
    assert_eq!(e.line, 3);
    assert_eq!(e.summary, "Binding exceeds device limits");
}

#[test]
fn empty_bindings_and_wide_textures_do_not_fit() {
    assert!(!within_limits(BindingKind::StorageBuffer { bytes: 0 }, &LIMITS));
    assert!(within_limits(BindingKind::StorageBuffer { bytes: 1 << 27 }, &LIMITS));
    assert!(!within_limits(BindingKind::StorageBuffer { bytes: (1 << 27) + 1 }, &LIMITS));
    assert!(!within_limits(BindingKind::StorageTexture { width: 0, height: 4 }, &LIMITS));
    assert!(!within_limits(BindingKind::StorageTexture { width: 4, height: 8193 }, &LIMITS));
    assert!(within_limits(BindingKind::StorageTexture { width: 8192, height: 1 }, &LIMITS));
    assert!(within_limits(BindingKind::UniformBlock { bytes: 16 }, &LIMITS));
    assert!(!within_limits(BindingKind::UniformBlock { bytes: 65537 }, &LIMITS));
    let e = resolve(&vec![], &table("#texture t 0 4\n"), &LIMITS).unwrap_err();
    assert_eq!(e.line, 1);
}

#[test]
fn the_last_storage_texture_is_presented() {
    let declared = table("#texture a 4 4\n#storage b 4 u32\n#texture c 8 8\n#storage d 4 u32\n");
    let r = resolve(&vec![], &declared, &LIMITS).unwrap();
    assert_eq!(final_target(&r.table), Some(3));
    let r = resolve(&vec![], &table("#storage b 4 u32\n"), &LIMITS).unwrap();
    assert_eq!(final_target(&r.table), None);
    assert_eq!(final_target(&vec![]), None);
}
