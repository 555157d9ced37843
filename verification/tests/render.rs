use imxrt_rt_gen::generate::{link, reset};
use imxrt_rt_gen::numtext::{dec_text, hex_text};
use imxrt_rt_gen::{LinkerScript, FLASH, RAM};

fn sample() -> LinkerScript<u32> {
    let mut ls = LinkerScript::<u32>::new();
    let flash = ls.region(FLASH, 0x0, 512).unwrap();
    let ram = ls.region(RAM, 0x20000000, 128).unwrap();
    ls.stack(ram.clone()).unwrap();
    ls.heap(ram.clone()).unwrap();
    ls.boot_config(512, "fcb", flash.clone()).unwrap();
    ls.vector_table(flash.clone(), Some(ram.clone())).unwrap();
    ls.text(flash.clone(), Some(ram.clone())).unwrap();
    ls.data(false, flash.clone(), Some(ram.clone())).unwrap();
    ls.rodata(false, flash.clone(), None).unwrap();
    ls.bss(false, flash.clone(), Some(ram.clone())).unwrap();
    ls
}

fn count(haystack: &str, needle: &str) -> usize {
    haystack.matches(needle).count()
}

fn position(haystack: &str, needle: &str) -> usize {
    haystack
        .find(needle)
        .unwrap_or_else(|| panic!("missing {:?} in output", needle))
}

#[test]
fn valid_layout_renders_one_memory_and_one_sections_block() {
    let text = sample().write().unwrap();
    assert!(!text.is_empty());
    assert_eq!(count(&text, "MEMORY {"), 1);
    assert_eq!(count(&text, "SECTIONS {"), 1);
}

#[test]
fn memory_block_lists_regions_in_declaration_order() {
    let text = sample().write().unwrap();
    let flash_line = "\tFLASH : ORIGIN = 0x0, LENGTH = 0x200\n";
    let ram_line = "\tRAM : ORIGIN = 0x20000000, LENGTH = 0x80\n";
    assert!(position(&text, flash_line) < position(&text, ram_line));
}

#[test]
fn regions_get_origin_size_and_used_symbols() {
    let text = sample().write().unwrap();
    assert_eq!(count(&text, "\t__FLASH_origin = 0;\n"), 1);
    assert_eq!(count(&text, "\t__FLASH_size = 512;\n"), 1);
    assert_eq!(count(&text, "\t__FLASH_used = 0;\n"), 1);
    assert_eq!(count(&text, "\t__RAM_origin = 536870912;\n"), 1);
    assert_eq!(count(&text, "\t__RAM_size = 128;\n"), 1);
    assert_eq!(count(&text, "\t__RAM_used = 0;\n"), 1);
}

#[test]
fn sections_appear_in_priority_order() {
    let text = sample().write().unwrap();
    let fcb = position(&text, "\t.fcb :");
    let vector_table = position(&text, "\t.vector_table :");
    let text_sec = position(&text, "\t.text :");
    let data = position(&text, "\t.data :");
    let rodata = position(&text, "\t.rodata :");
    let bss = position(&text, "\t.bss :");
    let stack = position(&text, "\t.stack :");
    let heap = position(&text, "\t.heap :");
    assert!(fcb < vector_table);
    assert!(vector_table < text_sec);
    assert!(text_sec < data);
    assert!(data < rodata);
    assert!(rodata < bss);
    assert!(bss < stack);
    // The heap carries the highest priority tier and is the last block
    // emitted: no further block opens after it.
    assert!(stack < heap);
    assert_eq!(count(&text[heap..], " :\n"), 1);
}

#[test]
fn lma_sections_update_both_accumulators() {
    let text = sample().write().unwrap();
    // `text` runs in FLASH and loads from RAM: both accumulators advance.
    assert_eq!(
        count(&text, "\t__FLASH_used = __FLASH_used + SIZEOF(.text);\n"),
        1
    );
    assert_eq!(
        count(&text, "\t__RAM_used = __RAM_used + SIZEOF(.text);\n"),
        1
    );
    assert_eq!(count(&text, "\t__load_text = LOADADDR(.text);\n"), 1);
    // `rodata` has no load region: only the FLASH accumulator advances.
    assert_eq!(count(&text, "SIZEOF(.rodata)"), 1);
    assert_eq!(
        count(&text, "\t__FLASH_used = __FLASH_used + SIZEOF(.rodata);\n"),
        1
    );
    assert_eq!(count(&text, "__load_rodata"), 0);
    // Stack and heap never touch an accumulator.
    assert_eq!(count(&text, "SIZEOF(.stack)"), 0);
    assert_eq!(count(&text, "SIZEOF(.heap)"), 0);
}

#[test]
fn vector_table_carries_stack_pointer_preamble() {
    let text = sample().write().unwrap();
    assert_eq!(count(&text, "\t\tLONG(__start_stack);\n"), 1);
}

#[test]
fn fixed_section_reserves_its_size() {
    let text = sample().write().unwrap();
    assert_eq!(count(&text, "\t\t__start_fcb = .;\n"), 1);
    assert_eq!(count(&text, "\t\t. += 512\n"), 1);
    assert_eq!(count(&text, "\t\t__end_fcb = .;\n"), 1);
    assert_eq!(
        count(&text, "\t__FLASH_used = __FLASH_used + SIZEOF(.fcb);\n"),
        1
    );
}

#[test]
fn stack_and_heap_claim_the_region_remainder() {
    let text = sample().write().unwrap();
    // Heap: start after what is used, end at the region ceiling.
    let heap_block = &text[position(&text, "\t.heap :")..];
    assert!(heap_block.contains("\t\t. = __RAM_origin + __RAM_used;\n"));
    assert!(heap_block.contains("\t\t__start_heap = .;\n"));
    assert!(heap_block.contains("\t\t. = __RAM_origin + __RAM_size;\n"));
    assert!(heap_block.contains("\t\t__end_heap = .;\n"));
    // Stack: end symbol at the low boundary, start symbol at the ceiling.
    let stack_block = &text[position(&text, "\t.stack :")..position(&text, "\t.heap :")];
    let end = position(stack_block, "\t\t__end_stack = .;\n");
    let start = position(stack_block, "\t\t__start_stack = .;\n");
    assert!(end < start);
}

#[test]
fn vector_table_block_renders_exactly() {
    let text = sample().write().unwrap();
    let expected = "\t.vector_table :\n\
                    \t{\n\
                    \t\t. = ALIGN(4);\n\
                    \t\t__start_vector_table = .;\n\
                    \t\tLONG(__start_stack);\n\
                    \t\t*(.vector_table .vector_table.*);\n\
                    \t\t. = ALIGN(4);\n\
                    \t\t__end_vector_table = .;\n\
                    \t} > FLASH AT> RAM\n\
                    \t__load_vector_table = LOADADDR(.vector_table);\n\
                    \t__FLASH_used = __FLASH_used + SIZEOF(.vector_table);\n\
                    \t__RAM_used = __RAM_used + SIZEOF(.vector_table);\n\n";
    assert_eq!(count(&text, expected), 1);
}

#[test]
fn rodata_block_renders_exactly() {
    let text = sample().write().unwrap();
    let expected = "\t.rodata :\n\
                    \t{\n\
                    \t\t. = ALIGN(4);\n\
                    \t\t__start_rodata = .;\n\
                    \t\t*(.rodata .rodata.*);\n\
                    \t\t. = ALIGN(4);\n\
                    \t\t__end_rodata = .;\n\
                    \t} > FLASH\n\
                    \t__FLASH_used = __FLASH_used + SIZEOF(.rodata);\n\n";
    assert_eq!(count(&text, expected), 1);
}

#[test]
fn stack_block_renders_exactly() {
    let text = sample().write().unwrap();
    let expected = "\t.stack :\n\
                    \t{\n\
                    \t\t. = __RAM_origin + __RAM_used;\n\
                    \t\t. = ALIGN(4);\n\
                    \t\t__end_stack = .;\n\
                    \t\t. = __RAM_origin + __RAM_size;\n\
                    \t\t__start_stack = .;\n\
                    \t} > RAM\n\n";
    assert_eq!(count(&text, expected), 1);
}

#[test]
fn equal_priorities_keep_declaration_order() {
    // Two boot-configuration sections share the lowest priority tier:
    // the tie is broken by declaration order.
    let mut ls = LinkerScript::<u32>::new();
    let flash = ls.region(FLASH, 0x0, 512).unwrap();
    let ram = ls.region(RAM, 0x20000000, 128).unwrap();
    ls.boot_config(256, "ivt", flash.clone()).unwrap();
    ls.boot_config(256, "fcb", flash.clone()).unwrap();
    ls.stack(ram.clone()).unwrap();
    ls.vector_table(flash.clone(), None).unwrap();
    ls.text(flash.clone(), None).unwrap();
    ls.data(false, flash.clone(), Some(ram.clone())).unwrap();
    ls.rodata(false, flash.clone(), None).unwrap();
    ls.bss(false, ram.clone(), None).unwrap();
    let text = ls.write().unwrap();
    assert!(position(&text, "\t.ivt :") < position(&text, "\t.fcb :"));
    assert!(position(&text, "\t.fcb :") < position(&text, "\t.vector_table :"));
}

#[test]
fn prefixed_sections_move_to_the_later_tier() {
    let mut ls = LinkerScript::<u32>::new();
    let flash = ls.region(FLASH, 0x0, 512).unwrap();
    let ram = ls.region(RAM, 0x20000000, 128).unwrap();
    ls.stack(ram.clone()).unwrap();
    ls.vector_table(flash.clone(), None).unwrap();
    ls.text(flash.clone(), None).unwrap();
    // A prefixed data section sorts behind the plain rodata and bss.
    ls.data(true, ram.clone(), None).unwrap();
    ls.rodata(false, flash.clone(), None).unwrap();
    ls.bss(false, ram.clone(), None).unwrap();
    let text = ls.write().unwrap();
    assert!(position(&text, "\t.rodata :") < position(&text, "\t.data :"));
    assert!(position(&text, "\t.bss :") < position(&text, "\t.data :"));
    assert!(position(&text, "\t.data :") < position(&text, "\t.stack :"));
}

#[test]
fn rendering_twice_is_byte_identical() {
    let ls = sample();
    let first = link::render(&ls);
    let second = link::render(&ls);
    assert_eq!(first, second);
}

#[test]
fn region_order_only_moves_memory_lines() {
    let mut ls = LinkerScript::<u32>::new();
    let ram = ls.region(RAM, 0x20000000, 128).unwrap();
    let flash = ls.region(FLASH, 0x0, 512).unwrap();
    ls.stack(ram.clone()).unwrap();
    ls.heap(ram.clone()).unwrap();
    ls.boot_config(512, "fcb", flash.clone()).unwrap();
    ls.vector_table(flash.clone(), Some(ram.clone())).unwrap();
    ls.text(flash.clone(), Some(ram.clone())).unwrap();
    ls.data(false, flash.clone(), Some(ram.clone())).unwrap();
    ls.rodata(false, flash.clone(), None).unwrap();
    ls.bss(false, flash.clone(), Some(ram.clone())).unwrap();
    let swapped = ls.write().unwrap();
    let original = sample().write().unwrap();
    // The memory lines trade places...
    assert!(
        position(&original, "\tFLASH : ORIGIN") < position(&original, "\tRAM : ORIGIN")
    );
    assert!(
        position(&swapped, "\tRAM : ORIGIN") < position(&swapped, "\tFLASH : ORIGIN")
    );
    // ...while every section block, its symbols and its accumulator
    // updates are unchanged.
    let original_sections = &original[position(&original, "\t.fcb :")..];
    let swapped_sections = &swapped[position(&swapped, "\t.fcb :")..];
    assert_eq!(original_sections, swapped_sections);
}

#[test]
fn word_width_sets_the_alignment() {
    let mut ls = LinkerScript::<u64>::new();
    let flash = ls.region(FLASH, 0x0, 0x10000).unwrap();
    let ram = ls.region(RAM, 0x20000000, 0x8000).unwrap();
    ls.stack(ram.clone()).unwrap();
    ls.vector_table(flash.clone(), None).unwrap();
    ls.text(flash.clone(), None).unwrap();
    ls.data(false, flash.clone(), Some(ram.clone())).unwrap();
    ls.rodata(false, flash.clone(), None).unwrap();
    ls.bss(false, ram.clone(), None).unwrap();
    let text = ls.write().unwrap();
    assert!(text.contains("\t\t. = ALIGN(8);\n"));
    assert_eq!(count(&text, "ALIGN(4)"), 0);
}

#[test]
fn sample_layout_renders_the_expected_script() {
    let text = sample().write().unwrap();
    let lines: Vec<&str> = vec![
        "INCLUDE device.x",
        "ENTRY(Reset);",
        "EXTERN(__RESET_VECTOR); /* depends on the `Reset` symbol */",
        "",
        "/* # Exception vectors */",
        "/* This is effectively weak aliasing at the linker level */",
        "/* The user can override any of these aliases by defining the corresponding symbol themselves (cf.",
        "   the `exception!` macro) */",
        "EXTERN(__EXCEPTIONS); /* depends on all the these PROVIDED symbols */",
        "",
        "EXTERN(DefaultHandler);",
        "",
        "PROVIDE(NonMaskableInt = DefaultHandler);",
        "EXTERN(HardFaultTrampoline);",
        "PROVIDE(MemoryManagement = DefaultHandler);",
        "PROVIDE(BusFault = DefaultHandler);",
        "PROVIDE(UsageFault = DefaultHandler);",
        "PROVIDE(SecureFault = DefaultHandler);",
        "PROVIDE(SVCall = DefaultHandler);",
        "PROVIDE(DebugMonitor = DefaultHandler);",
        "PROVIDE(PendSV = DefaultHandler);",
        "PROVIDE(SysTick = DefaultHandler);",
        "",
        "PROVIDE(DefaultHandler = DefaultHandler_);",
        "PROVIDE(HardFault = HardFault_);",
        "",
        "/* # Interrupt vectors */",
        "EXTERN(__INTERRUPTS); /* `static` variable similar to `__EXCEPTIONS` */",
        "MEMORY {",
        "\tFLASH : ORIGIN = 0x0, LENGTH = 0x200",
        "\tRAM : ORIGIN = 0x20000000, LENGTH = 0x80",
        "}",
        "SECTIONS {",
        "\t__FLASH_origin = 0;",
        "\t__FLASH_size = 512;",
        "\t__FLASH_used = 0;",
        "\t__RAM_origin = 536870912;",
        "\t__RAM_size = 128;",
        "\t__RAM_used = 0;",
        "\t.fcb :",
        "\t{",
        "\t\t__start_fcb = .;",
        "\t\t. += 512",
        "\t\t__end_fcb = .;",
        "\t} > FLASH",
        "\t__FLASH_used = __FLASH_used + SIZEOF(.fcb);",
        "",
        "\t.vector_table :",
        "\t{",
        "\t\t. = ALIGN(4);",
        "\t\t__start_vector_table = .;",
        "\t\tLONG(__start_stack);",
        "\t\t*(.vector_table .vector_table.*);",
        "\t\t. = ALIGN(4);",
        "\t\t__end_vector_table = .;",
        "\t} > FLASH AT> RAM",
        "\t__load_vector_table = LOADADDR(.vector_table);",
        "\t__FLASH_used = __FLASH_used + SIZEOF(.vector_table);",
        "\t__RAM_used = __RAM_used + SIZEOF(.vector_table);",
        "",
        "\t.text :",
        "\t{",
        "\t\t. = ALIGN(4);",
        "\t\t__start_text = .;",
        "\t\t*(.text .text.*);",
        "\t\t. = ALIGN(4);",
        "\t\t__end_text = .;",
        "\t} > FLASH AT> RAM",
        "\t__load_text = LOADADDR(.text);",
        "\t__FLASH_used = __FLASH_used + SIZEOF(.text);",
        "\t__RAM_used = __RAM_used + SIZEOF(.text);",
        "",
        "\t.data :",
        "\t{",
        "\t\t. = ALIGN(4);",
        "\t\t__start_data = .;",
        "\t\t*(.data .data.*);",
        "\t\t. = ALIGN(4);",
        "\t\t__end_data = .;",
        "\t} > FLASH AT> RAM",
        "\t__load_data = LOADADDR(.data);",
        "\t__FLASH_used = __FLASH_used + SIZEOF(.data);",
        "\t__RAM_used = __RAM_used + SIZEOF(.data);",
        "",
        "\t.rodata :",
        "\t{",
        "\t\t. = ALIGN(4);",
        "\t\t__start_rodata = .;",
        "\t\t*(.rodata .rodata.*);",
        "\t\t. = ALIGN(4);",
        "\t\t__end_rodata = .;",
        "\t} > FLASH",
        "\t__FLASH_used = __FLASH_used + SIZEOF(.rodata);",
        "",
        "\t.bss :",
        "\t{",
        "\t\t. = ALIGN(4);",
        "\t\t__start_bss = .;",
        "\t\t*(.bss .bss.*);",
        "\t\t. = ALIGN(4);",
        "\t\t__end_bss = .;",
        "\t} > FLASH AT> RAM",
        "\t__load_bss = LOADADDR(.bss);",
        "\t__FLASH_used = __FLASH_used + SIZEOF(.bss);",
        "\t__RAM_used = __RAM_used + SIZEOF(.bss);",
        "",
        "\t.stack :",
        "\t{",
        "\t\t. = __RAM_origin + __RAM_used;",
        "\t\t. = ALIGN(4);",
        "\t\t__end_stack = .;",
        "\t\t. = __RAM_origin + __RAM_size;",
        "\t\t__start_stack = .;",
        "\t} > RAM",
        "",
        "\t.heap :",
        "\t{",
        "\t\t. = __RAM_origin + __RAM_used;",
        "\t\t. = ALIGN(4);",
        "\t\t__start_heap = .;",
        "\t\t. = __RAM_origin + __RAM_size;",
        "\t\t__end_heap = .;",
        "\t} > RAM",
        "",
        "}",
    ];
    let mut expected = lines.join("\n");
    expected.push('\n');
    assert_eq!(text, expected);
}

#[test]
fn decimal_text_matches_formatting() {
    assert_eq!(dec_text(0), "0");
    assert_eq!(dec_text(7), "7");
    assert_eq!(dec_text(512), "512");
    assert_eq!(dec_text(536870912), "536870912");
    assert_eq!(dec_text(u64::MAX), "18446744073709551615");
}

#[test]
fn hex_text_matches_formatting() {
    assert_eq!(hex_text(0), "0x0");
    assert_eq!(hex_text(10), "0xA");
    assert_eq!(hex_text(512), "0x200");
    assert_eq!(hex_text(0x20000000), "0x20000000");
    assert_eq!(hex_text(u64::MAX), "0xFFFFFFFFFFFFFFFF");
}

#[test]
fn reset_module_pins_the_reset_vector() {
    let ls = sample();
    let text = reset::render(&ls);
    assert_eq!(
        text,
        "#[doc(Hidden)]\n#[link_section = \".vector_table.reset_vector\"]\n#[no_mangle]\npub static __RESET_VECTOR: unsafe extern \"C\" fn() -> ! = Reset;\n"
    );
}

#[test]
fn header_declares_the_entry_point() {
    let text = sample().write().unwrap();
    assert!(text.starts_with("INCLUDE device.x\nENTRY(Reset);\n"));
    assert_eq!(count(&text, "ENTRY(Reset);"), 1);
}
