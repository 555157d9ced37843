//! Linker-script rendering.
//!
//! [`render`] turns a layout into linker-script text, and the
//! `spec_` functions here pin that text down character for character: a
//! fixed header, a `MEMORY` block with one line per region in
//! declaration order, then a `SECTIONS` block holding three tracking
//! symbols per region followed by one block per section in ascending
//! priority order (declaration order breaking ties). The per-region
//! `__{region}_used` accumulator lets stack and heap sections, which
//! sort last, claim the unused remainder of their region without the
//! renderer knowing compiled sizes.

use crate::numtext::{dec_text, hex_text, spec_dec, spec_hex};
use crate::{LayoutModel, LinkerScript, Region, RegionModel, Section, SectionModel, SectionSize,
    SizingModel, Word};
use vstd::prelude::*;
use vstd::multiset::Multiset;
use vstd::seq_lib::lemma_concat_associative;

verus! {

pub const LINK_HEADER: &'static str = "INCLUDE device.x
ENTRY(Reset);
EXTERN(__RESET_VECTOR); /* depends on the `Reset` symbol */

/* # Exception vectors */
/* This is effectively weak aliasing at the linker level */
/* The user can override any of these aliases by defining the corresponding symbol themselves (cf.
   the `exception!` macro) */
EXTERN(__EXCEPTIONS); /* depends on all the these PROVIDED symbols */

EXTERN(DefaultHandler);

PROVIDE(NonMaskableInt = DefaultHandler);
EXTERN(HardFaultTrampoline);
PROVIDE(MemoryManagement = DefaultHandler);
PROVIDE(BusFault = DefaultHandler);
PROVIDE(UsageFault = DefaultHandler);
PROVIDE(SecureFault = DefaultHandler);
PROVIDE(SVCall = DefaultHandler);
PROVIDE(DebugMonitor = DefaultHandler);
PROVIDE(PendSV = DefaultHandler);
PROVIDE(SysTick = DefaultHandler);

PROVIDE(DefaultHandler = DefaultHandler_);
PROVIDE(HardFault = HardFault_);

/* # Interrupt vectors */
EXTERN(__INTERRUPTS); /* `static` variable similar to `__EXCEPTIONS` */
";

/// The fixed file header: entry point and externally resolved exception
/// and interrupt symbols, static text not derived from the model.
pub open spec fn spec_header() -> Seq<char> {
    LINK_HEADER@
}

/// One `MEMORY` line: name, origin and length in hexadecimal.
pub open spec fn spec_memory_line(r: RegionModel) -> Seq<char> {
    "\t"@ + r.name + " : ORIGIN = "@ + spec_hex(r.origin) + ", LENGTH = "@ + spec_hex(r.size)
        + "\n"@
}

/// The `MEMORY` lines of the regions, in declaration order.
pub open spec fn spec_memory_lines(rs: Seq<RegionModel>) -> Seq<char>
    decreases rs.len(),
{
    if rs.len() == 0 {
        Seq::empty()
    } else {
        spec_memory_lines(rs.drop_last()) + spec_memory_line(rs.last())
    }
}

/// The whole `MEMORY` block.
pub open spec fn spec_memory_block(rs: Seq<RegionModel>) -> Seq<char> {
    "MEMORY {\n"@ + spec_memory_lines(rs) + "}\n"@
}

/// The three tracking symbols of one region: its origin, its size, and
/// its usage accumulator starting at zero.
pub open spec fn spec_region_syms(r: RegionModel) -> Seq<char> {
    "\t__"@ + r.name + "_origin = "@ + spec_dec(r.origin) + ";\n"@ + "\t__"@ + r.name + "_size = "@
        + spec_dec(r.size) + ";\n"@ + "\t__"@ + r.name + "_used = 0;\n"@
}

/// The tracking symbols of all regions, in declaration order.
pub open spec fn spec_region_syms_lines(rs: Seq<RegionModel>) -> Seq<char>
    decreases rs.len(),
{
    if rs.len() == 0 {
        Seq::empty()
    } else {
        spec_region_syms_lines(rs.drop_last()) + spec_region_syms(rs.last())
    }
}

/// The line advancing a region's usage accumulator by a section's size.
pub open spec fn spec_used_line(region: Seq<char>, name: Seq<char>) -> Seq<char> {
    "\t__"@ + region + "_used = __"@ + region + "_used + SIZEOF(."@ + name + ");\n"@
}

/// A linker-sized section block: aligned start and end symbols around
/// the collected input contributions, the optional preamble spliced in,
/// and, with a load region, a load-address symbol plus usage updates for
/// both the run and the load region.
pub open spec fn spec_linker_block(s: SectionModel, a: nat) -> Seq<char> {
    let head = "\t."@ + s.name + " :\n"@ + "\t{\n"@ + "\t\t. = ALIGN("@ + spec_dec(a) + ");\n"@
        + "\t\t__start_"@ + s.name + " = .;\n"@;
    let head2 = match s.preamble {
        Some(p) => head + ("\t\t"@ + p + "\n"@),
        None => head,
    };
    let head3 = head2 + "\t\t*(."@ + s.name + " ."@ + s.name + ".*);\n"@ + "\t\t. = ALIGN("@
        + spec_dec(a) + ");\n"@ + "\t\t__end_"@ + s.name + " = .;\n"@;
    let head4 = match s.lma {
        Some(l) => head3 + "\t} > "@ + s.vma + " AT> "@ + l + "\n"@ + "\t__load_"@ + s.name
            + " = LOADADDR(."@ + s.name + ");\n"@ + spec_used_line(s.vma, s.name) + spec_used_line(
            l,
            s.name,
        ),
        None => head3 + "\t} > "@ + s.vma + "\n"@ + spec_used_line(s.vma, s.name),
    };
    head4 + "\n"@
}

/// A heap section block: it starts right after everything already
/// placed in its region and ends at the region's ceiling. It leaves the
/// usage accumulator alone.
pub open spec fn spec_heap_block(s: SectionModel, a: nat) -> Seq<char> {
    "\t."@ + s.name + " :\n"@ + "\t{\n"@ + "\t\t. = __"@ + s.vma + "_origin + __"@ + s.vma
        + "_used;\n"@ + "\t\t. = ALIGN("@ + spec_dec(a) + ");\n"@ + "\t\t__start_"@ + s.name
        + " = .;\n"@ + "\t\t. = __"@ + s.vma + "_origin + __"@ + s.vma + "_size;\n"@
        + "\t\t__end_"@ + s.name + " = .;\n"@ + "\t} > "@ + s.vma + "\n"@ + "\n"@
}

/// A stack section block: the low boundary carries the end symbol and
/// the region's ceiling the start symbol, since the stack grows
/// downward. It leaves the usage accumulator alone.
pub open spec fn spec_stack_block(s: SectionModel, a: nat) -> Seq<char> {
    "\t."@ + s.name + " :\n"@ + "\t{\n"@ + "\t\t. = __"@ + s.vma + "_origin + __"@ + s.vma
        + "_used;\n"@ + "\t\t. = ALIGN("@ + spec_dec(a) + ");\n"@ + "\t\t__end_"@ + s.name
        + " = .;\n"@ + "\t\t. = __"@ + s.vma + "_origin + __"@ + s.vma + "_size;\n"@
        + "\t\t__start_"@ + s.name + " = .;\n"@ + "\t} > "@ + s.vma + "\n"@ + "\n"@
}

/// A fixed-size section block: the location counter is advanced by
/// exactly the declared size, and the region's usage accumulator by the
/// block's emitted size.
pub open spec fn spec_fixed_block(s: SectionModel, size: nat) -> Seq<char> {
    "\t."@ + s.name + " :\n"@ + "\t{\n"@ + "\t\t__start_"@ + s.name + " = .;\n"@ + "\t\t. += "@
        + spec_dec(size) + "\n"@ + "\t\t__end_"@ + s.name + " = .;\n"@ + "\t} > "@ + s.vma + "\n"@
        + spec_used_line(s.vma, s.name) + "\n"@
}

/// The block of one section, by its sizing strategy.
pub open spec fn spec_section_block(s: SectionModel, a: nat) -> Seq<char> {
    match s.sizing {
        SizingModel::Linker => spec_linker_block(s, a),
        SizingModel::Fixed(size) => spec_fixed_block(s, size),
        SizingModel::Stack => spec_stack_block(s, a),
        SizingModel::Heap => spec_heap_block(s, a),
    }
}

/// The blocks of the given sections, in the given order.
pub open spec fn spec_sections_text(ss: Seq<SectionModel>, a: nat) -> Seq<char>
    decreases ss.len(),
{
    if ss.len() == 0 {
        Seq::empty()
    } else {
        spec_sections_text(ss.drop_last(), a) + spec_section_block(ss.last(), a)
    }
}

/// Stable insertion of a section behind every section of priority no
/// greater than its own.
pub open spec fn spec_insert(s: Seq<SectionModel>, x: SectionModel) -> Seq<SectionModel>
    decreases s.len(),
{
    if s.len() == 0 {
        seq![x]
    } else if s.last().priority <= x.priority {
        s.push(x)
    } else {
        spec_insert(s.drop_last(), x).push(s.last())
    }
}

/// The sections in ascending priority order, declaration order breaking
/// ties: a stable insertion sort.
pub open spec fn spec_sort(s: Seq<SectionModel>) -> Seq<SectionModel>
    decreases s.len(),
{
    if s.len() == 0 {
        Seq::empty()
    } else {
        spec_insert(spec_sort(s.drop_last()), s.last())
    }
}

/// The whole `SECTIONS` block: tracking symbols per region in
/// declaration order, then one block per section in priority order.
pub open spec fn spec_sections_block(l: LayoutModel, a: nat) -> Seq<char> {
    "SECTIONS {\n"@ + spec_region_syms_lines(l.regions) + spec_sections_text(
        spec_sort(l.sections),
        a,
    ) + "}\n"@
}

/// The full rendered text of a layout, for word alignment `a`.
pub open spec fn spec_render(l: LayoutModel, a: nat) -> Seq<char> {
    spec_header() + spec_memory_block(l.regions) + spec_sections_block(l, a)
}

proof fn lemma_memory_lines_snoc(rs: Seq<RegionModel>, i: int)
    requires
        0 <= i < rs.len(),
    ensures
        spec_memory_lines(rs.take(i + 1)) == spec_memory_lines(rs.take(i)) + spec_memory_line(
            rs[i],
        ),
{
    assert(rs.take(i + 1).drop_last() =~= rs.take(i));
    assert(rs.take(i + 1).last() == rs[i]);
}

proof fn lemma_region_syms_snoc(rs: Seq<RegionModel>, i: int)
    requires
        0 <= i < rs.len(),
    ensures
        spec_region_syms_lines(rs.take(i + 1)) == spec_region_syms_lines(rs.take(i))
            + spec_region_syms(rs[i]),
{
    assert(rs.take(i + 1).drop_last() =~= rs.take(i));
    assert(rs.take(i + 1).last() == rs[i]);
}

proof fn lemma_sections_text_snoc(ss: Seq<SectionModel>, a: nat, i: int)
    requires
        0 <= i < ss.len(),
    ensures
        spec_sections_text(ss.take(i + 1), a) == spec_sections_text(ss.take(i), a)
            + spec_section_block(ss[i], a),
{
    assert(ss.take(i + 1).drop_last() =~= ss.take(i));
    assert(ss.take(i + 1).last() == ss[i]);
}

proof fn lemma_sort_snoc(ss: Seq<SectionModel>, i: int)
    requires
        0 <= i < ss.len(),
    ensures
        spec_sort(ss.take(i + 1)) == spec_insert(spec_sort(ss.take(i)), ss[i]),
{
    assert(ss.take(i + 1).drop_last() =~= ss.take(i));
    assert(ss.take(i + 1).last() == ss[i]);
}

/// Inserting at the position the scan found is the stable insertion.
proof fn lemma_insert_at(s: Seq<SectionModel>, x: SectionModel, j: int)
    requires
        0 <= j <= s.len(),
        forall|k: int| j <= k < s.len() ==> s[k].priority > x.priority,
        j == 0 || s[j - 1].priority <= x.priority,
    ensures
        spec_insert(s, x) == s.insert(j, x),
    decreases s.len(),
{
    if s.len() == 0 {
        assert(spec_insert(s, x) =~= s.insert(0, x));
    } else if s.last().priority <= x.priority {
        assert(j == s.len());
        assert(s.push(x) =~= s.insert(j, x));
    } else {
        assert(j < s.len());
        lemma_insert_at(s.drop_last(), x, j);
        assert(spec_insert(s.drop_last(), x).push(s.last()) =~= s.insert(j, x));
    }
}

fn header_text() -> (r: String)
    ensures
        r@ == spec_header(),
{
    String::from_str(LINK_HEADER)
}

fn memory_line<W: Word>(region: &Region<W>) -> (r: String)
    ensures
        r@ == spec_memory_line(region@),
{
    let mut s = String::from_str("\t");
    s.append(region.name.as_str());
    s.append(" : ORIGIN = ");
    let origin = hex_text(region.origin.value());
    s.append(origin.as_str());
    s.append(", LENGTH = ");
    let size = hex_text(region.size.value());
    s.append(size.as_str());
    s.append("\n");
    s
}

fn memory_lines_text<W: Word>(regions: &Vec<Region<W>>) -> (r: String)
    ensures
        r@ == spec_memory_lines(regions@.map_values(|x: Region<W>| x@)),
{
    let ghost models = regions@.map_values(|x: Region<W>| x@);
    let mut s = String::new();
    proof {
        assert(models.take(0) =~= Seq::<RegionModel>::empty());
    }
    let n = regions.len();
    let mut i: usize = 0;
    while i < n
        invariant
            n == regions.len(),
            i <= n,
            models == regions@.map_values(|x: Region<W>| x@),
            s@ == spec_memory_lines(models.take(i as int)),
        decreases n - i,
    {
        let line = memory_line(&regions[i]);
        s.append(line.as_str());
        proof {
            lemma_memory_lines_snoc(models, i as int);
        }
        i += 1;
    }
    proof {
        assert(models.take(n as int) =~= models);
    }
    s
}

fn memory_block_text<W: Word>(regions: &Vec<Region<W>>) -> (r: String)
    ensures
        r@ == spec_memory_block(regions@.map_values(|x: Region<W>| x@)),
{
    let mut s = String::from_str("MEMORY {\n");
    let lines = memory_lines_text(regions);
    s.append(lines.as_str());
    s.append("}\n");
    s
}

fn region_syms_text<W: Word>(region: &Region<W>) -> (r: String)
    ensures
        r@ == spec_region_syms(region@),
{
    let origin = dec_text(region.origin.value());
    let size = dec_text(region.size.value());
    let mut s = String::from_str("\t__");
    s.append(region.name.as_str());
    s.append("_origin = ");
    s.append(origin.as_str());
    s.append(";\n");
    s.append("\t__");
    s.append(region.name.as_str());
    s.append("_size = ");
    s.append(size.as_str());
    s.append(";\n");
    s.append("\t__");
    s.append(region.name.as_str());
    s.append("_used = 0;\n");
    s
}

fn region_syms_lines_text<W: Word>(regions: &Vec<Region<W>>) -> (r: String)
    ensures
        r@ == spec_region_syms_lines(regions@.map_values(|x: Region<W>| x@)),
{
    let ghost models = regions@.map_values(|x: Region<W>| x@);
    let mut s = String::new();
    proof {
        assert(models.take(0) =~= Seq::<RegionModel>::empty());
    }
    let n = regions.len();
    let mut i: usize = 0;
    while i < n
        invariant
            n == regions.len(),
            i <= n,
            models == regions@.map_values(|x: Region<W>| x@),
            s@ == spec_region_syms_lines(models.take(i as int)),
        decreases n - i,
    {
        let group = region_syms_text(&regions[i]);
        s.append(group.as_str());
        proof {
            lemma_region_syms_snoc(models, i as int);
        }
        i += 1;
    }
    proof {
        assert(models.take(n as int) =~= models);
    }
    s
}

fn used_line_text(region: &String, name: &String) -> (r: String)
    ensures
        r@ == spec_used_line(region@, name@),
{
    let mut s = String::from_str("\t__");
    s.append(region.as_str());
    s.append("_used = __");
    s.append(region.as_str());
    s.append("_used + SIZEOF(.");
    s.append(name.as_str());
    s.append(");\n");
    s
}

/// render a linker sized section
fn render_linker_section<W: Word>(section: &Section<W>) -> (r: String)
    ensures
        r@ == spec_linker_block(section@, W::spec_alignment()),
{
    let align = dec_text(W::alignment());
    let mut s = String::from_str("\t.");
    s.append(section.name.as_str());
    s.append(" :\n");
    s.append("\t{\n");
    s.append("\t\t. = ALIGN(");
    s.append(align.as_str());
    s.append(");\n");
    s.append("\t\t__start_");
    s.append(section.name.as_str());
    s.append(" = .;\n");
    if let Some(p) = &section.linker_preamble {
        let mut pre = String::from_str("\t\t");
        pre.append(p.as_str());
        pre.append("\n");
        s.append(pre.as_str());
    }
    s.append("\t\t*(.");
    s.append(section.name.as_str());
    s.append(" .");
    s.append(section.name.as_str());
    s.append(".*);\n");
    s.append("\t\t. = ALIGN(");
    s.append(align.as_str());
    s.append(");\n");
    s.append("\t\t__end_");
    s.append(section.name.as_str());
    s.append(" = .;\n");
    if let Some(lma) = &section.lma {
        s.append("\t} > ");
        s.append(section.vma.0.as_str());
        s.append(" AT> ");
        s.append(lma.0.as_str());
        s.append("\n");
        s.append("\t__load_");
        s.append(section.name.as_str());
        s.append(" = LOADADDR(.");
        s.append(section.name.as_str());
        s.append(");\n");
        let vma_used = used_line_text(&section.vma.0, &section.name);
        s.append(vma_used.as_str());
        let lma_used = used_line_text(&lma.0, &section.name);
        s.append(lma_used.as_str());
    } else {
        s.append("\t} > ");
        s.append(section.vma.0.as_str());
        s.append("\n");
        let vma_used = used_line_text(&section.vma.0, &section.name);
        s.append(vma_used.as_str());
    }
    s.append("\n");
    s
}

/// render a heap section
fn render_heap_section<W: Word>(section: &Section<W>) -> (r: String)
    ensures
        r@ == spec_heap_block(section@, W::spec_alignment()),
{
    let align = dec_text(W::alignment());
    let mut s = String::from_str("\t.");
    s.append(section.name.as_str());
    s.append(" :\n");
    s.append("\t{\n");
    s.append("\t\t. = __");
    s.append(section.vma.0.as_str());
    s.append("_origin + __");
    s.append(section.vma.0.as_str());
    s.append("_used;\n");
    s.append("\t\t. = ALIGN(");
    s.append(align.as_str());
    s.append(");\n");
    s.append("\t\t__start_");
    s.append(section.name.as_str());
    s.append(" = .;\n");
    s.append("\t\t. = __");
    s.append(section.vma.0.as_str());
    s.append("_origin + __");
    s.append(section.vma.0.as_str());
    s.append("_size;\n");
    s.append("\t\t__end_");
    s.append(section.name.as_str());
    s.append(" = .;\n");
    s.append("\t} > ");
    s.append(section.vma.0.as_str());
    s.append("\n");
    s.append("\n");
    s
}

/// render a stack section
fn render_stack_section<W: Word>(section: &Section<W>) -> (r: String)
    ensures
        r@ == spec_stack_block(section@, W::spec_alignment()),
{
    let align = dec_text(W::alignment());
    let mut s = String::from_str("\t.");
    s.append(section.name.as_str());
    s.append(" :\n");
    s.append("\t{\n");
    s.append("\t\t. = __");
    s.append(section.vma.0.as_str());
    s.append("_origin + __");
    s.append(section.vma.0.as_str());
    s.append("_used;\n");
    s.append("\t\t. = ALIGN(");
    s.append(align.as_str());
    s.append(");\n");
    s.append("\t\t__end_");
    s.append(section.name.as_str());
    s.append(" = .;\n");
    s.append("\t\t. = __");
    s.append(section.vma.0.as_str());
    s.append("_origin + __");
    s.append(section.vma.0.as_str());
    s.append("_size;\n");
    s.append("\t\t__start_");
    s.append(section.name.as_str());
    s.append(" = .;\n");
    s.append("\t} > ");
    s.append(section.vma.0.as_str());
    s.append("\n");
    s.append("\n");
    s
}

/// render a fixed-size section
fn render_fixed_section<W: Word>(section: &Section<W>, size: W) -> (r: String)
    ensures
        r@ == spec_fixed_block(section@, size.as_nat()),
{
    let size_txt = dec_text(size.value());
    let mut s = String::from_str("\t.");
    s.append(section.name.as_str());
    s.append(" :\n");
    s.append("\t{\n");
    s.append("\t\t__start_");
    s.append(section.name.as_str());
    s.append(" = .;\n");
    s.append("\t\t. += ");
    s.append(size_txt.as_str());
    s.append("\n");
    s.append("\t\t__end_");
    s.append(section.name.as_str());
    s.append(" = .;\n");
    s.append("\t} > ");
    s.append(section.vma.0.as_str());
    s.append("\n");
    let vma_used = used_line_text(&section.vma.0, &section.name);
    s.append(vma_used.as_str());
    s.append("\n");
    s
}

fn render_section<W: Word>(section: &Section<W>) -> (r: String)
    ensures
        r@ == spec_section_block(section@, W::spec_alignment()),
{
    match &section.size {
        SectionSize::Linker => render_linker_section(section),
        SectionSize::Heap => render_heap_section(section),
        SectionSize::Stack => render_stack_section(section),
        SectionSize::Fixed(size) => render_fixed_section(section, *size),
    }
}

fn insert_sorted<W: Word>(v: &mut Vec<Section<W>>, x: Section<W>)
    ensures
        final(v)@.map_values(|s: Section<W>| s@) == spec_insert(
            old(v)@.map_values(|s: Section<W>| s@),
            x@,
        ),
{
    let ghost models = v@.map_values(|s: Section<W>| s@);
    let mut j = v.len();
    while j > 0 && v[j - 1].priority > x.priority
        invariant
            j <= v.len(),
            v == old(v),
            models == v@.map_values(|s: Section<W>| s@),
            forall|k: int| j <= k < models.len() ==> models[k].priority > x@.priority,
        decreases j,
    {
        j -= 1;
    }
    proof {
        lemma_insert_at(models, x@, j as int);
    }
    v.insert(j, x);
    proof {
        assert(v@.map_values(|s: Section<W>| s@) =~= models.insert(j as int, x@));
    }
}

fn sorted_sections<W: Word>(sections: &Vec<Section<W>>) -> (r: Vec<Section<W>>)
    ensures
        r@.map_values(|s: Section<W>| s@) == spec_sort(sections@.map_values(|s: Section<W>| s@)),
{
    let ghost models = sections@.map_values(|s: Section<W>| s@);
    let mut out: Vec<Section<W>> = Vec::new();
    proof {
        assert(models.take(0) =~= Seq::<SectionModel>::empty());
        assert(out@.map_values(|s: Section<W>| s@) =~= Seq::<SectionModel>::empty());
    }
    let n = sections.len();
    let mut i: usize = 0;
    while i < n
        invariant
            n == sections.len(),
            i <= n,
            models == sections@.map_values(|s: Section<W>| s@),
            out@.map_values(|s: Section<W>| s@) == spec_sort(models.take(i as int)),
        decreases n - i,
    {
        let x = sections[i].clone_section();
        insert_sorted(&mut out, x);
        proof {
            lemma_sort_snoc(models, i as int);
        }
        i += 1;
    }
    proof {
        assert(models.take(n as int) =~= models);
    }
    out
}

fn sections_text_of<W: Word>(sorted: &Vec<Section<W>>) -> (r: String)
    ensures
        r@ == spec_sections_text(sorted@.map_values(|s: Section<W>| s@), W::spec_alignment()),
{
    let ghost models = sorted@.map_values(|s: Section<W>| s@);
    let mut s = String::new();
    proof {
        assert(models.take(0) =~= Seq::<SectionModel>::empty());
    }
    let n = sorted.len();
    let mut i: usize = 0;
    while i < n
        invariant
            n == sorted.len(),
            i <= n,
            models == sorted@.map_values(|s: Section<W>| s@),
            s@ == spec_sections_text(models.take(i as int), W::spec_alignment()),
        decreases n - i,
    {
        let block = render_section(&sorted[i]);
        s.append(block.as_str());
        proof {
            lemma_sections_text_snoc(models, W::spec_alignment(), i as int);
        }
        i += 1;
    }
    proof {
        assert(models.take(n as int) =~= models);
    }
    s
}

fn sections_block_text<W: Word>(ls: &LinkerScript<W>) -> (r: String)
    ensures
        r@ == spec_sections_block(ls@, W::spec_alignment()),
{
    let mut s = String::from_str("SECTIONS {\n");
    let syms = region_syms_lines_text(&ls.regions);
    s.append(syms.as_str());
    let sorted = sorted_sections(&ls.sections);
    let blocks = sections_text_of(&sorted);
    s.append(blocks.as_str());
    s.append("}\n");
    s
}

/// Generate a linker script from a LinkerScript.
///
/// The text is a pure function of the layout: regions in declaration
/// order, sections in ascending priority order with declaration order
/// breaking ties.
pub fn render<W: Word>(ls: &LinkerScript<W>) -> (r: String)
    ensures
        r@ == spec_render(ls@, W::spec_alignment()),
{
    let mut s = header_text();
    let memory = memory_block_text(&ls.regions);
    s.append(memory.as_str());
    let sections = sections_block_text(ls);
    s.append(sections.as_str());
    s
}

/// A rendering is never empty: it closes with the end of the `SECTIONS`
/// block at the very least.
pub proof fn lemma_render_nonempty(l: LayoutModel, a: nat)
    ensures
        spec_render(l, a).len() > 0,
{
    reveal_strlit("}\n");
}

/// Whether the sections stand in ascending priority order.
pub open spec fn sorted_by_priority(ss: Seq<SectionModel>) -> bool {
    forall|i: int, j: int| 0 <= i <= j < ss.len() ==> ss[i].priority <= ss[j].priority
}

proof fn lemma_insert_bound(s: Seq<SectionModel>, x: SectionModel, b: int)
    requires
        forall|i: int| 0 <= i < s.len() ==> s[i].priority <= b,
        x.priority <= b,
    ensures
        forall|i: int| 0 <= i < spec_insert(s, x).len() ==> spec_insert(s, x)[i].priority <= b,
    decreases s.len(),
{
    if s.len() == 0 {
    } else if s.last().priority <= x.priority {
    } else {
        lemma_insert_bound(s.drop_last(), x, b);
    }
}

proof fn lemma_insert_preserves_order(s: Seq<SectionModel>, x: SectionModel)
    requires
        sorted_by_priority(s),
    ensures
        sorted_by_priority(spec_insert(s, x)),
    decreases s.len(),
{
    if s.len() == 0 {
    } else if s.last().priority <= x.priority {
        assert forall|i: int, j: int|
            0 <= i <= j < s.push(x).len() implies s.push(x)[i].priority <= s.push(
            x,
        )[j].priority by {
            if j == s.len() {
                if i < s.len() {
                    assert(s[i].priority <= s.last().priority);
                }
            }
        }
    } else {
        lemma_insert_preserves_order(s.drop_last(), x);
        lemma_insert_bound(s.drop_last(), x, s.last().priority);
        let t = spec_insert(s.drop_last(), x);
        assert forall|i: int, j: int|
            0 <= i <= j < t.push(s.last()).len() implies t.push(s.last())[i].priority <= t.push(
            s.last(),
        )[j].priority by {}
    }
}

/// Sections are emitted in ascending priority order: the order the
/// renderer works through is sorted, so for two sections with
/// priorities `p1 < p2` the first one's block stands strictly before
/// the second one's in the output text.
pub proof fn lemma_sort_orders_by_priority(ss: Seq<SectionModel>)
    ensures
        sorted_by_priority(spec_sort(ss)),
    decreases ss.len(),
{
    if ss.len() == 0 {
    } else {
        lemma_sort_orders_by_priority(ss.drop_last());
        lemma_insert_preserves_order(spec_sort(ss.drop_last()), ss.last());
    }
}

proof fn lemma_insert_multiset(s: Seq<SectionModel>, x: SectionModel)
    ensures
        spec_insert(s, x).to_multiset() == s.to_multiset().insert(x),
    decreases s.len(),
{
    broadcast use vstd::seq_lib::group_to_multiset_ensures;

    if s.len() == 0 {
        assert(seq![x] =~= Seq::<SectionModel>::empty().push(x));
        assert(s.to_multiset() =~= Multiset::<SectionModel>::empty());
        assert(spec_insert(s, x).to_multiset() =~= s.to_multiset().insert(x));
    } else if s.last().priority <= x.priority {
        assert(s.push(x).to_multiset() =~= s.to_multiset().insert(x));
    } else {
        lemma_insert_multiset(s.drop_last(), x);
        let t = spec_insert(s.drop_last(), x);
        assert(t.push(s.last()).to_multiset() =~= t.to_multiset().insert(s.last()));
        assert(s.drop_last().push(s.last()) =~= s);
        assert(s.drop_last().push(s.last()).to_multiset() =~= s.drop_last().to_multiset().insert(
            s.last(),
        ));
        assert(t.to_multiset().insert(s.last()) =~= s.to_multiset().insert(x));
    }
}

/// Sorting loses no section and invents none: the emitted order is a
/// permutation of the declared sections.
pub proof fn lemma_sort_permutes(ss: Seq<SectionModel>)
    ensures
        spec_sort(ss).to_multiset() == ss.to_multiset(),
    decreases ss.len(),
{
    broadcast use vstd::seq_lib::group_to_multiset_ensures;

    if ss.len() == 0 {
        assert(spec_sort(ss).to_multiset() =~= ss.to_multiset());
    } else {
        lemma_sort_permutes(ss.drop_last());
        lemma_insert_multiset(spec_sort(ss.drop_last()), ss.last());
        assert(ss.drop_last().push(ss.last()) =~= ss);
        assert(ss.drop_last().push(ss.last()).to_multiset() =~= ss.drop_last().to_multiset().insert(
            ss.last(),
        ));
    }
}

/// The selector for sections of one priority value.
pub open spec fn has_priority(pr: int) -> spec_fn(SectionModel) -> bool {
    |s: SectionModel| s.priority == pr
}

proof fn lemma_filter_push(
    s: Seq<SectionModel>,
    x: SectionModel,
    pred: spec_fn(SectionModel) -> bool,
)
    ensures
        s.push(x).filter(pred) == if pred(x) {
            s.filter(pred).push(x)
        } else {
            s.filter(pred)
        },
{
    reveal(Seq::filter);
    assert(s.push(x).drop_last() =~= s);
    assert(s.push(x).last() == x);
}

proof fn lemma_insert_filter(s: Seq<SectionModel>, x: SectionModel, pr: int)
    ensures
        spec_insert(s, x).filter(has_priority(pr)) == if x.priority == pr {
            s.filter(has_priority(pr)).push(x)
        } else {
            s.filter(has_priority(pr))
        },
    decreases s.len(),
{
    reveal(Seq::filter);
    let pred = has_priority(pr);
    if s.len() == 0 {
        assert(seq![x].drop_last() =~= s);
    } else if s.last().priority <= x.priority {
        lemma_filter_push(s, x, pred);
    } else {
        lemma_insert_filter(s.drop_last(), x, pr);
        lemma_filter_push(spec_insert(s.drop_last(), x), s.last(), pred);
    }
}

/// The sort is stable: within each priority value the sections keep
/// their declaration order, so equal-priority sections are emitted in
/// the order they were declared.
pub proof fn lemma_sort_stable(ss: Seq<SectionModel>, pr: int)
    ensures
        spec_sort(ss).filter(has_priority(pr)) == ss.filter(has_priority(pr)),
    decreases ss.len(),
{
    reveal(Seq::filter);
    if ss.len() > 0 {
        lemma_sort_stable(ss.drop_last(), pr);
        lemma_insert_filter(spec_sort(ss.drop_last()), ss.last(), pr);
    }
}

/// Whether `needle` occurs somewhere inside `hay`.
pub open spec fn contains_text(hay: Seq<char>, needle: Seq<char>) -> bool {
    exists|k: int|
        0 <= k && k + needle.len() <= hay.len() && #[trigger] hay.subrange(k, k + needle.len()) == needle
}

proof fn lemma_contains_concat_mid(a: Seq<char>, b: Seq<char>, c: Seq<char>)
    ensures
        contains_text(a + b + c, b),
{
    let h = a + b + c;
    assert(h.subrange(a.len() as int, (a.len() + b.len()) as int) =~= b);
}

/// A section with a load region advances the usage accumulator of both
/// its run region and its load region; one without a load region
/// advances its run region's accumulator.
pub proof fn lemma_linker_block_accumulators(s: SectionModel, a: nat)
    ensures
        s.lma matches Some(l) ==> contains_text(
            spec_linker_block(s, a),
            spec_used_line(s.vma, s.name),
        ) && contains_text(spec_linker_block(s, a), spec_used_line(l, s.name)),
        s.lma is None ==> contains_text(spec_linker_block(s, a), spec_used_line(s.vma, s.name)),
{
    let head = "\t."@ + s.name + " :\n"@ + "\t{\n"@ + "\t\t. = ALIGN("@ + spec_dec(a) + ");\n"@
        + "\t\t__start_"@ + s.name + " = .;\n"@;
    let head2 = match s.preamble {
        Some(p) => head + ("\t\t"@ + p + "\n"@),
        None => head,
    };
    let head3 = head2 + "\t\t*(."@ + s.name + " ."@ + s.name + ".*);\n"@ + "\t\t. = ALIGN("@
        + spec_dec(a) + ");\n"@ + "\t\t__end_"@ + s.name + " = .;\n"@;
    match s.lma {
        Some(l) => {
            let front = head3 + "\t} > "@ + s.vma + " AT> "@ + l + "\n"@ + "\t__load_"@ + s.name
                + " = LOADADDR(."@ + s.name + ");\n"@;
            lemma_concat_associative(
                front,
                spec_used_line(s.vma, s.name),
                spec_used_line(l, s.name),
            );
            lemma_concat_associative(
                front,
                spec_used_line(s.vma, s.name) + spec_used_line(l, s.name),
                "\n"@,
            );
            lemma_concat_associative(
                spec_used_line(s.vma, s.name),
                spec_used_line(l, s.name),
                "\n"@,
            );
            lemma_concat_associative(
                front,
                spec_used_line(s.vma, s.name),
                spec_used_line(l, s.name) + "\n"@,
            );
            assert(spec_linker_block(s, a) == front + spec_used_line(s.vma, s.name) + (
            spec_used_line(l, s.name) + "\n"@));
            lemma_contains_concat_mid(
                front,
                spec_used_line(s.vma, s.name),
                spec_used_line(l, s.name) + "\n"@,
            );
            lemma_contains_concat_mid(
                front + spec_used_line(s.vma, s.name),
                spec_used_line(l, s.name),
                "\n"@,
            );
        },
        None => {
            let front = head3 + "\t} > "@ + s.vma + "\n"@;
            lemma_contains_concat_mid(front, spec_used_line(s.vma, s.name), "\n"@);
        },
    }
}

/// Where the block of the `i`-th section starts inside the emitted
/// section text: the lengths of all blocks before it.
pub open spec fn spec_block_offset(ss: Seq<SectionModel>, a: nat, i: int) -> int
    decreases i,
{
    if i <= 0 {
        0
    } else {
        spec_block_offset(ss, a, i - 1) + spec_section_block(ss[i - 1], a).len()
    }
}

proof fn lemma_block_offset_is_prefix_len(ss: Seq<SectionModel>, a: nat, i: int)
    requires
        0 <= i <= ss.len(),
    ensures
        spec_block_offset(ss, a, i) == spec_sections_text(ss.take(i), a).len(),
    decreases i,
{
    if i == 0 {
        assert(ss.take(0) =~= Seq::<SectionModel>::empty());
    } else {
        lemma_block_offset_is_prefix_len(ss, a, i - 1);
        lemma_sections_text_snoc(ss, a, i - 1);
    }
}

/// Each section's block is a contiguous piece of the emitted text,
/// standing exactly at its offset; offsets grow with the index, so a
/// section earlier in the order stands strictly before a later one.
pub proof fn lemma_block_positions(ss: Seq<SectionModel>, a: nat, i: int)
    requires
        0 <= i < ss.len(),
    ensures
        spec_block_offset(ss, a, i) + spec_section_block(ss[i], a).len() <= spec_block_offset(
            ss,
            a,
            i + 1,
        ),
        spec_block_offset(ss, a, i + 1) <= spec_sections_text(ss, a).len(),
        spec_sections_text(ss, a).subrange(
            spec_block_offset(ss, a, i),
            spec_block_offset(ss, a, i) + spec_section_block(ss[i], a).len(),
        ) == spec_section_block(ss[i], a),
    decreases ss.len(),
{
    lemma_block_offset_is_prefix_len(ss, a, i);
    lemma_block_offset_is_prefix_len(ss, a, i + 1);
    lemma_sections_text_snoc(ss, a, i);
    let t = spec_sections_text(ss, a);
    let off = spec_block_offset(ss, a, i);
    let block = spec_section_block(ss[i], a);
    if i + 1 == ss.len() {
        assert(ss.take(i + 1) =~= ss);
        assert(spec_sections_text(ss, a) == spec_sections_text(ss.take(i), a) + block);
        assert(t.subrange(off, off + block.len()) =~= block);
    } else {
        lemma_block_positions(ss.drop_last(), a, i);
        assert(ss.drop_last()[i] == ss[i]);
        assert(ss.drop_last().take(i) =~= ss.take(i));
        assert(ss.drop_last().take(i + 1) =~= ss.take(i + 1));
        lemma_block_offset_is_prefix_len(ss.drop_last(), a, i);
        lemma_block_offset_is_prefix_len(ss.drop_last(), a, i + 1);
        let t0 = spec_sections_text(ss.drop_last(), a);
        assert(t == t0 + spec_section_block(ss.last(), a));
        assert(t0.subrange(off, off + block.len()) == block);
        assert(t.subrange(off, off + block.len()) =~= t0.subrange(off, off + block.len()));
    }
}

/// A fixed-size section advances its run region's usage accumulator.
pub proof fn lemma_fixed_block_accumulator(s: SectionModel, size: nat)
    ensures
        contains_text(spec_fixed_block(s, size), spec_used_line(s.vma, s.name)),
{
    let front = "\t."@ + s.name + " :\n"@ + "\t{\n"@ + "\t\t__start_"@ + s.name + " = .;\n"@
        + "\t\t. += "@ + spec_dec(size) + "\n"@ + "\t\t__end_"@ + s.name + " = .;\n"@ + "\t} > "@
        + s.vma + "\n"@;
    lemma_contains_concat_mid(front, spec_used_line(s.vma, s.name), "\n"@);
}

/// Rendering is a pure function of the layout: the same unmodified
/// layout renders to byte-identical text, whenever and however often it
/// is rendered. Together with [`render`]'s contract this pins two calls
/// on one layout to the same output.
pub proof fn lemma_render_deterministic(l1: LayoutModel, l2: LayoutModel, a: nat)
    requires
        l1 == l2,
    ensures
        spec_render(l1, a) == spec_render(l2, a),
{
}

/// The section blocks depend only on the declared sections: reordering
/// region declarations moves `MEMORY` lines and tracking symbols, but
/// leaves every section's emitted block, its symbols and its
/// accumulator updates, unchanged.
pub proof fn lemma_section_blocks_ignore_region_order(l1: LayoutModel, l2: LayoutModel, a: nat)
    requires
        l1.sections == l2.sections,
    ensures
        spec_sections_text(spec_sort(l1.sections), a) == spec_sections_text(
            spec_sort(l2.sections),
            a,
        ),
{
}

} // verus!
