use mbl2::plthook::{plan_patches, replace_plt_function, replace_plt_functions, SlotPatch};

#[test]
fn slot_lies_above_the_base() {
    assert_eq!(
        replace_plt_function(0x7000_0000, 0x1f8, 0xdead),
        Some(SlotPatch { slot: 0x7000_01f8, replacement: 0xdead })
    );
    assert_eq!(replace_plt_function(0, 0, 0), Some(SlotPatch { slot: 0, replacement: 0 }));
    assert_eq!(
        replace_plt_function(u64::MAX - 1, 1, 5),
        Some(SlotPatch { slot: u64::MAX, replacement: 5 })
    );
}

#[test]
fn slot_beyond_64_bits_is_skipped() {
    assert_eq!(replace_plt_function(u64::MAX, 1, 5), None);
}

#[test]
fn unresolved_imports_are_skipped() {
    let patches = plan_patches(0x1000, &[Some(8), None, Some(0x20), None], &[1, 2, 3, 4]);
    assert_eq!(
        patches,
        vec![
            SlotPatch { slot: 0x1008, replacement: 1 },
            SlotPatch { slot: 0x1020, replacement: 3 },
        ]
    );
    assert_eq!(plan_patches(0x1000, &[], &[]), vec![]);
    assert_eq!(plan_patches(0x1000, &[None, None], &[1, 2]), vec![]);
    assert_eq!(
        plan_patches(u64::MAX - 4, &[Some(8), Some(4)], &[1, 2]),
        vec![SlotPatch { slot: u64::MAX, replacement: 2 }]
    );
}

#[test]
fn lists_of_different_length_plan_nothing() {
    assert_eq!(plan_patches(0x1000, &[Some(8)], &[1, 2]), vec![]);
    assert_eq!(plan_patches(0x1000, &[Some(8), Some(9)], &[1]), vec![]);
}

#[test]
fn imports_of_the_running_program_are_looked_up() {
    for module in plt_rs::collect_modules() {
        let Ok(library) = plt_rs::DynamicLibrary::initialize(module) else {
            continue;
        };
        let base = library.base_addr() as u64;
        let wanted = [
            ("malloc", 0x1111u64),
            ("surely_no_module_imports_a_function_of_this_name", 0x2222),
            ("free", 0x3333),
        ];
        let patches = replace_plt_functions(&library, &wanted);
        assert!(patches.len() <= 2);
        assert!(patches.iter().all(|patch| patch.replacement != 0x2222));
        let mut expected = Vec::new();
        for (name, replacement) in wanted {
            if let Some(entry) = library.try_find_function(name) {
                expected.push(SlotPatch { slot: base + entry.r_offset as u64, replacement });
            }
        }
        assert_eq!(patches, expected);
    }
}
