//! Build-time planner for embedded-target memory layouts.
//!
//! A build script declares the physical memory regions of its target and
//! the logical sections a firmware image needs (vector table, code,
//! read-only data, initialized and zero-initialized data, stack, heap,
//! and optional boot-configuration blocks). The crate then renders a
//! linker-script description that places those sections, including
//! load-address-versus-run-address (copy-down) cases.
//!
//! The renderer is a pure function of the declared layout: the produced
//! text is pinned down, character for character, by the specification
//! functions of [`generate::link`].

use vstd::prelude::*;

pub mod generate;
pub mod numtext;

verus! {

/// Machine word trait, used for alignment and sizing of memory regions.
pub trait Word: Sized + Copy {
    /// The mathematical value of this word.
    spec fn as_nat(self) -> nat;

    /// The natural alignment of the word type, in bytes.
    spec fn spec_alignment() -> nat;

    /// The word's value, widened to 64 bits.
    fn value(self) -> (r: u64)
        ensures
            r as nat == self.as_nat(),
    ;

    /// The natural alignment of the word type, in bytes.
    fn alignment() -> (r: u64)
        ensures
            r as nat == Self::spec_alignment(),
    ;
}

impl Word for u32 {
    open spec fn as_nat(self) -> nat {
        self as nat
    }

    open spec fn spec_alignment() -> nat {
        4
    }

    fn value(self) -> u64 {
        self as u64
    }

    fn alignment() -> u64 {
        4
    }
}

impl Word for u64 {
    open spec fn as_nat(self) -> nat {
        self as nat
    }

    open spec fn spec_alignment() -> nat {
        8
    }

    fn value(self) -> u64 {
        self
    }

    fn alignment() -> u64 {
        8
    }
}

/// Commonly used FLASH region name
pub const FLASH: &'static str = "FLASH";

/// Commonly used RAM region name
pub const RAM: &'static str = "RAM";

/// An ID given to a region
#[derive(Debug, PartialEq, Eq, PartialOrd, Ord)]
pub struct RegionID(pub String);

impl View for RegionID {
    type V = Seq<char>;

    open spec fn view(&self) -> Seq<char> {
        self.0@
    }
}

impl Clone for RegionID {
    fn clone(&self) -> (r: Self)
        ensures
            r@ == self@,
    {
        RegionID(self.0.clone())
    }
}

/// An ID given to a section
#[derive(Debug, PartialEq, Eq, PartialOrd, Ord)]
pub struct SectionID(pub String);

impl View for SectionID {
    type V = Seq<char>;

    open spec fn view(&self) -> Seq<char> {
        self.0@
    }
}

impl Clone for SectionID {
    fn clone(&self) -> (r: Self)
        ensures
            r@ == self@,
    {
        SectionID(self.0.clone())
    }
}

/// LinkerError union type
#[derive(Debug)]
pub enum LinkerError {
    UnknownVMA(RegionID),
    UnknownLMA(RegionID),
    DuplicateRegion(String),
    DuplicateSection(String),
    MissingSection(String),
}

/// The text describing an error, naming the offending region or
/// section.
pub open spec fn spec_message(e: LinkerError) -> Seq<char> {
    match e {
        LinkerError::UnknownVMA(id) => "Region with ID \""@ + id@ + "\" used as VMA is unknown"@,
        LinkerError::UnknownLMA(id) => "Region with ID \""@ + id@ + "\" used as LMA is unknown"@,
        LinkerError::DuplicateRegion(n) => "Duplicate region, \""@ + n@ + "\" already defined"@,
        LinkerError::DuplicateSection(n) => "Duplicate section, \""@ + n@ + "\" already defined"@,
        LinkerError::MissingSection(n) => "Missing required section \""@ + n@ + "\""@,
    }
}

impl LinkerError {
    /// The description of the error.
    pub fn message(&self) -> (r: String)
        ensures
            r@ == spec_message(*self),
    {
        match self {
            LinkerError::UnknownVMA(id) => {
                let mut s = String::from_str("Region with ID \"");
                s.append(id.0.as_str());
                s.append("\" used as VMA is unknown");
                s
            },
            LinkerError::UnknownLMA(id) => {
                let mut s = String::from_str("Region with ID \"");
                s.append(id.0.as_str());
                s.append("\" used as LMA is unknown");
                s
            },
            LinkerError::DuplicateRegion(n) => {
                let mut s = String::from_str("Duplicate region, \"");
                s.append(n.as_str());
                s.append("\" already defined");
                s
            },
            LinkerError::DuplicateSection(n) => {
                let mut s = String::from_str("Duplicate section, \"");
                s.append(n.as_str());
                s.append("\" already defined");
                s
            },
            LinkerError::MissingSection(n) => {
                let mut s = String::from_str("Missing required section \"");
                s.append(n.as_str());
                s.append("\"");
                s
            },
        }
    }
}

/// SectionSize describes the way in which a section should be sized,
/// which may be linker, fixed, stack, or heap.
#[derive(Debug)]
pub enum SectionSize<W: Word> {
    /// The linker decides how large this section should be by
    /// introspecting the program's section size
    Linker,
    /// A fixed section size; this may overflow if not sized appropriately
    Fixed(W),
    /// Stack sizing will take the remaining region space and locate the
    /// stack, with the stack start and stop reversed. The start of the
    /// stack is at the end of the space
    Stack,
    /// Heap sizing will take the remaining region space. If both a stack
    /// and heap are assigned to the same region they will overlap. The
    /// section starts at the lower address and ends at the higher address
    /// like other sections.
    Heap,
}

/// Mathematical form of a sizing strategy; fixed sizes are plain naturals.
pub ghost enum SizingModel {
    Linker,
    Fixed(nat),
    Stack,
    Heap,
}

/// Mathematical model of a declared memory region.
pub ghost struct RegionModel {
    pub name: Seq<char>,
    pub origin: nat,
    pub size: nat,
}

/// Mathematical model of a declared section.
pub ghost struct SectionModel {
    pub priority: int,
    pub name: Seq<char>,
    pub vma: Seq<char>,
    pub lma: Option<Seq<char>>,
    pub sizing: SizingModel,
    pub prefix: bool,
    pub preamble: Option<Seq<char>>,
}

/// Mathematical model of a whole layout: regions and sections, each in
/// declaration order.
pub ghost struct LayoutModel {
    pub regions: Seq<RegionModel>,
    pub sections: Seq<SectionModel>,
}

impl LayoutModel {
    /// Whether a region of this name has been declared.
    pub open spec fn has_region(self, name: Seq<char>) -> bool {
        exists|i: int| 0 <= i < self.regions.len() && self.regions[i].name == name
    }

    /// Whether a section of this name has been declared.
    pub open spec fn has_section(self, name: Seq<char>) -> bool {
        exists|i: int| 0 <= i < self.sections.len() && self.sections[i].name == name
    }

    /// Well-formedness: names are unique and every section refers to
    /// declared regions.
    pub open spec fn wf(self) -> bool {
        &&& forall|i: int, j: int|
            0 <= i < j < self.regions.len() ==> self.regions[i].name != self.regions[j].name
        &&& forall|i: int, j: int|
            0 <= i < j < self.sections.len() ==> self.sections[i].name != self.sections[j].name
        &&& forall|i: int|
            0 <= i < self.sections.len() ==> self.has_region(#[trigger] self.sections[i].vma)
        &&& forall|i: int|
            0 <= i < self.sections.len() ==> match #[trigger] self.sections[i].lma {
                Some(l) => self.has_region(l),
                None => true,
            }
    }
}

/// Section describes where in memory certain parts of the program should
/// be placed, including whether they are loaded from another region, as
/// well as how they should be sized.
#[derive(Debug)]
pub struct Section<W: Word> {
    /// Priority given to the section when rendering a linker script.
    /// Lower values mean higher priority given to the section. Sections
    /// are placed in memory from the origin of a region in order of
    /// their priority.
    pub priority: i32,
    /// Name given to the section
    pub name: String,
    /// Virtual memory region, region where the program will look for
    /// this section.
    pub vma: RegionID,
    /// Optional load memory region, region where the program will
    /// initially copy this section from.
    pub lma: Option<RegionID>,
    /// The size of the section can be fixed, automatic, or fill
    pub size: SectionSize<W>,
    /// Prefix selects a region-scoped priority tier for the section.
    pub prefix: bool,
    /// Linker template preamble if needed (the vector table needs this)
    pub linker_preamble: Option<String>,
}

impl<W: Word> View for Section<W> {
    type V = SectionModel;

    open spec fn view(&self) -> SectionModel {
        SectionModel {
            priority: self.priority as int,
            name: self.name@,
            vma: self.vma@,
            lma: match self.lma {
                Some(l) => Some(l@),
                None => None,
            },
            sizing: match self.size {
                SectionSize::Linker => SizingModel::Linker,
                SectionSize::Fixed(w) => SizingModel::Fixed(w.as_nat()),
                SectionSize::Stack => SizingModel::Stack,
                SectionSize::Heap => SizingModel::Heap,
            },
            prefix: self.prefix,
            preamble: match self.linker_preamble {
                Some(p) => Some(p@),
                None => None,
            },
        }
    }
}

/// Region description
#[derive(Debug)]
pub struct Region<W: Word> {
    pub name: String,
    pub origin: W,
    pub size: W,
}

impl<W: Word> View for Region<W> {
    type V = RegionModel;

    open spec fn view(&self) -> RegionModel {
        RegionModel { name: self.name@, origin: self.origin.as_nat(), size: self.size.as_nat() }
    }
}

/// The canonical stack section bound to `vma`: highest priority tier but
/// one, so it is rendered after every statically sized section.
pub open spec fn spec_stack_section(vma: Seq<char>) -> SectionModel {
    SectionModel {
        priority: i32::MAX as int - 1,
        name: "stack"@,
        vma,
        lma: None,
        sizing: SizingModel::Stack,
        prefix: false,
        preamble: None,
    }
}

/// The canonical heap section bound to `vma`: the highest priority tier,
/// rendered last.
pub open spec fn spec_heap_section(vma: Seq<char>) -> SectionModel {
    SectionModel {
        priority: i32::MAX as int,
        name: "heap"@,
        vma,
        lma: None,
        sizing: SizingModel::Heap,
        prefix: false,
        preamble: None,
    }
}

/// The canonical boot-configuration section: fixed size, placed before
/// the vector table.
pub open spec fn spec_boot_config_section(size: nat, name: Seq<char>, vma: Seq<char>) -> SectionModel {
    SectionModel {
        priority: -1,
        name,
        vma,
        lma: None,
        sizing: SizingModel::Fixed(size),
        prefix: false,
        preamble: None,
    }
}

/// The canonical vector-table section; its preamble pins the initial
/// stack pointer as the first table entry.
pub open spec fn spec_vector_table_section(vma: Seq<char>, lma: Option<Seq<char>>) -> SectionModel {
    SectionModel {
        priority: 0,
        name: "vector_table"@,
        vma,
        lma,
        sizing: SizingModel::Linker,
        prefix: false,
        preamble: Some("LONG(__start_stack);"@),
    }
}

/// The canonical text section.
pub open spec fn spec_text_section(vma: Seq<char>, lma: Option<Seq<char>>) -> SectionModel {
    SectionModel {
        priority: 1,
        name: "text"@,
        vma,
        lma,
        sizing: SizingModel::Linker,
        prefix: false,
        preamble: None,
    }
}

/// The canonical data section; `prefix` moves it to the region-scoped
/// priority tier.
pub open spec fn spec_data_section(prefix: bool, vma: Seq<char>, lma: Option<Seq<char>>) -> SectionModel {
    SectionModel {
        priority: if prefix { 102 } else { 2 },
        name: "data"@,
        vma,
        lma,
        sizing: SizingModel::Linker,
        prefix,
        preamble: None,
    }
}

/// The canonical rodata section.
pub open spec fn spec_rodata_section(prefix: bool, vma: Seq<char>, lma: Option<Seq<char>>) -> SectionModel {
    SectionModel {
        priority: if prefix { 103 } else { 3 },
        name: "rodata"@,
        vma,
        lma,
        sizing: SizingModel::Linker,
        prefix,
        preamble: None,
    }
}

/// The canonical bss section.
pub open spec fn spec_bss_section(prefix: bool, vma: Seq<char>, lma: Option<Seq<char>>) -> SectionModel {
    SectionModel {
        priority: if prefix { 104 } else { 4 },
        name: "bss"@,
        vma,
        lma,
        sizing: SizingModel::Linker,
        prefix,
        preamble: None,
    }
}

impl<W: Word> Section<W> {
    /// A field-for-field copy of the section.
    pub(crate) fn clone_section(&self) -> (r: Self)
        ensures
            r@ == self@,
    {
        Section {
            priority: self.priority,
            name: self.name.clone(),
            vma: self.vma.clone(),
            lma: match &self.lma {
                Some(l) => Some(l.clone()),
                None => None,
            },
            size: match &self.size {
                SectionSize::Linker => SectionSize::Linker,
                SectionSize::Fixed(w) => SectionSize::Fixed(*w),
                SectionSize::Stack => SectionSize::Stack,
                SectionSize::Heap => SectionSize::Heap,
            },
            prefix: self.prefix,
            linker_preamble: match &self.linker_preamble {
                Some(p) => Some(p.clone()),
                None => None,
            },
        }
    }

    fn heap(vma: RegionID) -> (r: Self)
        ensures
            r@ == spec_heap_section(vma@),
    {
        Section {
            priority: i32::MAX,
            size: SectionSize::Heap,
            prefix: false,
            name: String::from_str("heap"),
            vma,
            lma: None,
            linker_preamble: None,
        }
    }

    fn stack(vma: RegionID) -> (r: Self)
        ensures
            r@ == spec_stack_section(vma@),
    {
        Section {
            priority: i32::MAX - 1,
            size: SectionSize::Stack,
            prefix: false,
            name: String::from_str("stack"),
            vma,
            lma: None,
            linker_preamble: None,
        }
    }

    fn boot_config(size: W, name: &str, vma: RegionID) -> (r: Self)
        ensures
            r@ == spec_boot_config_section(size.as_nat(), name@, vma@),
    {
        Section {
            priority: -1,
            size: SectionSize::Fixed(size),
            prefix: false,
            name: String::from_str(name),
            vma,
            lma: None,
            linker_preamble: None,
        }
    }

    fn vector_table(vma: RegionID, lma: Option<RegionID>) -> (r: Self)
        ensures
            r@ == spec_vector_table_section(vma@, option_view(lma)),
    {
        Section {
            priority: 0,
            size: SectionSize::Linker,
            prefix: false,
            name: String::from_str("vector_table"),
            vma,
            lma,
            linker_preamble: Some(String::from_str("LONG(__start_stack);")),
        }
    }

    fn text(vma: RegionID, lma: Option<RegionID>) -> (r: Self)
        ensures
            r@ == spec_text_section(vma@, option_view(lma)),
    {
        Section {
            priority: 1,
            size: SectionSize::Linker,
            prefix: false,
            name: String::from_str("text"),
            vma,
            lma,
            linker_preamble: None,
        }
    }

    fn data(prefix: bool, vma: RegionID, lma: Option<RegionID>) -> (r: Self)
        ensures
            r@ == spec_data_section(prefix, vma@, option_view(lma)),
    {
        let priority: i32 = if prefix { 102 } else { 2 };
        Section {
            priority,
            size: SectionSize::Linker,
            prefix,
            name: String::from_str("data"),
            vma,
            lma,
            linker_preamble: None,
        }
    }

    fn rodata(prefix: bool, vma: RegionID, lma: Option<RegionID>) -> (r: Self)
        ensures
            r@ == spec_rodata_section(prefix, vma@, option_view(lma)),
    {
        let priority: i32 = if prefix { 103 } else { 3 };
        Section {
            priority,
            size: SectionSize::Linker,
            prefix,
            name: String::from_str("rodata"),
            vma,
            lma,
            linker_preamble: None,
        }
    }

    fn bss(prefix: bool, vma: RegionID, lma: Option<RegionID>) -> (r: Self)
        ensures
            r@ == spec_bss_section(prefix, vma@, option_view(lma)),
    {
        let priority: i32 = if prefix { 104 } else { 4 };
        Section {
            priority,
            size: SectionSize::Linker,
            prefix,
            name: String::from_str("bss"),
            vma,
            lma,
            linker_preamble: None,
        }
    }
}

/// The view of an optional region identifier.
pub open spec fn option_view(o: Option<RegionID>) -> Option<Seq<char>> {
    match o {
        Some(id) => Some(id@),
        None => None,
    }
}

/// What declaring a region does: a duplicate name is refused and the
/// layout left unchanged; otherwise the region is appended and its
/// identifier returned.
pub open spec fn region_result(
    pre: LayoutModel,
    post: LayoutModel,
    name: Seq<char>,
    origin: nat,
    size: nat,
    r: Result<RegionID, LinkerError>,
) -> bool {
    if pre.has_region(name) {
        &&& post == pre
        &&& r matches Err(LinkerError::DuplicateRegion(n)) && n@ == name
    } else {
        &&& post.sections == pre.sections
        &&& post.regions == pre.regions.push(RegionModel { name, origin, size })
        &&& r matches Ok(id) && id@ == name
    }
}

/// What declaring a section does: a duplicate name is refused, then a
/// dangling VMA, then a dangling LMA, each leaving the layout unchanged;
/// otherwise the section is appended and its identifier returned.
pub open spec fn add_section_result(
    pre: LayoutModel,
    post: LayoutModel,
    s: SectionModel,
    r: Result<SectionID, LinkerError>,
) -> bool {
    if pre.has_section(s.name) {
        &&& post == pre
        &&& r matches Err(LinkerError::DuplicateSection(n)) && n@ == s.name
    } else if !pre.has_region(s.vma) {
        &&& post == pre
        &&& r matches Err(LinkerError::UnknownVMA(id)) && id@ == s.vma
    } else if s.lma matches Some(l) && !pre.has_region(l) {
        &&& post == pre
        &&& r matches Err(LinkerError::UnknownLMA(id)) && Some(id@) == s.lma
    } else {
        &&& post.regions == pre.regions
        &&& post.sections == pre.sections.push(s)
        &&& r matches Ok(id) && id@ == s.name
    }
}

/// The first of the six mandatory section names absent from the layout,
/// in the fixed validation order, if any is absent.
pub open spec fn spec_first_missing(l: LayoutModel) -> Option<Seq<char>> {
    if !l.has_section("stack"@) {
        Some("stack"@)
    } else if !l.has_section("vector_table"@) {
        Some("vector_table"@)
    } else if !l.has_section("text"@) {
        Some("text"@)
    } else if !l.has_section("data"@) {
        Some("data"@)
    } else if !l.has_section("rodata"@) {
        Some("rodata"@)
    } else if !l.has_section("bss"@) {
        Some("bss"@)
    } else {
        None
    }
}

/// What generating the script text does: with any mandatory section
/// missing, the first missing name is reported; otherwise the text is
/// exactly the rendering of the layout, and not empty.
pub open spec fn write_result(l: LayoutModel, align: nat, r: Result<String, LinkerError>) -> bool {
    match spec_first_missing(l) {
        Some(name) => r matches Err(LinkerError::MissingSection(n)) && n@ == name,
        None => r matches Ok(text) && text@ == generate::link::spec_render(l, align)
            && text@.len() > 0,
    }
}

/// LinkerScript is a buildable descriptor of memory regions, common
/// linker sections, and rules on what gets moved (load memory address)
/// where.
///
/// Regions and sections are kept in declaration order, so rendering is
/// deterministic; names are unique and every section refers to a region
/// that was declared first.
#[derive(Debug)]
pub struct LinkerScript<W: Word> {
    pub regions: Vec<Region<W>>,
    pub sections: Vec<Section<W>>,
}

impl<W: Word> View for LinkerScript<W> {
    type V = LayoutModel;

    open spec fn view(&self) -> LayoutModel {
        LayoutModel {
            regions: self.regions@.map_values(|r: Region<W>| r@),
            sections: self.sections@.map_values(|s: Section<W>| s@),
        }
    }
}

impl<W: Word> LinkerScript<W> {
    /// Create a new LinkerScript which can be mutated
    pub fn new() -> (r: Self)
        ensures
            r@.regions == Seq::<RegionModel>::empty(),
            r@.sections == Seq::<SectionModel>::empty(),
            r@.wf(),
    {
        let r = LinkerScript { regions: Vec::new(), sections: Vec::new() };
        proof {
            assert(r@.regions =~= Seq::<RegionModel>::empty());
            assert(r@.sections =~= Seq::<SectionModel>::empty());
        }
        r
    }

    /// Whether a region of this name was declared.
    fn contains_region_name(&self, name: &String) -> (r: bool)
        ensures
            r == self@.has_region(name@),
    {
        let n = self.regions.len();
        let mut i: usize = 0;
        while i < n
            invariant
                n == self.regions.len(),
                i <= n,
                forall|j: int| 0 <= j < i ==> self@.regions[j].name != name@,
            decreases n - i,
        {
            if self.regions[i].name == *name {
                proof {
                    assert(self@.regions[i as int].name == name@);
                }
                return true;
            }
            i += 1;
        }
        false
    }

    /// Whether a section of this name was declared.
    fn contains_section_name(&self, name: &String) -> (r: bool)
        ensures
            r == self@.has_section(name@),
    {
        let n = self.sections.len();
        let mut i: usize = 0;
        while i < n
            invariant
                n == self.sections.len(),
                i <= n,
                forall|j: int| 0 <= j < i ==> self@.sections[j].name != name@,
            decreases n - i,
        {
            if self.sections[i].name == *name {
                proof {
                    assert(self@.sections[i as int].name == name@);
                }
                return true;
            }
            i += 1;
        }
        false
    }

    /// Add a named memory region
    pub fn region(&mut self, name: &str, origin: W, size: W) -> (r: Result<RegionID, LinkerError>)
        ensures
            region_result(old(self)@, final(self)@, name@, origin.as_nat(), size.as_nat(), r),
            old(self)@.wf() ==> final(self)@.wf(),
    {
        let ghost pre = self@;
        let key = String::from_str(name);
        if self.contains_region_name(&key) {
            return Err(LinkerError::DuplicateRegion(key));
        }
        let region = Region { name: key.clone(), origin, size };
        self.regions.push(region);
        proof {
            assert(self@.regions =~= pre.regions.push(
                RegionModel { name: name@, origin: origin.as_nat(), size: size.as_nat() },
            ));
            assert(self@.sections =~= pre.sections);
            if pre.wf() {
                assert forall|i: int| 0 <= i < self@.sections.len() implies self@.has_region(
                    #[trigger] self@.sections[i].vma,
                ) by {
                    let w = choose|k: int|
                        0 <= k < pre.regions.len() && pre.regions[k].name == pre.sections[i].vma;
                    assert(self@.regions[w].name == self@.sections[i].vma);
                }
                assert forall|i: int| 0 <= i < self@.sections.len() implies match #[trigger] self@
                    .sections[i].lma {
                    Some(l) => self@.has_region(l),
                    None => true,
                } by {
                    match pre.sections[i].lma {
                        Some(l) => {
                            let w = choose|k: int|
                                0 <= k < pre.regions.len() && pre.regions[k].name == l;
                            assert(self@.regions[w].name == l);
                        },
                        None => {},
                    }
                }
            }
        }
        Ok(RegionID(key))
    }

    /// Required stack location
    ///
    /// The stack goes from the top address in the region downward.
    pub fn stack(&mut self, vma: RegionID) -> (r: Result<SectionID, LinkerError>)
        ensures
            add_section_result(old(self)@, final(self)@, spec_stack_section(vma@), r),
            old(self)@.wf() ==> final(self)@.wf(),
    {
        let section = Section::stack(vma);
        self.add_section(section)
    }

    /// Optional heap location
    ///
    /// Places the heap as the last section in a region with addresses
    /// going higher available to it.
    pub fn heap(&mut self, vma: RegionID) -> (r: Result<SectionID, LinkerError>)
        ensures
            add_section_result(old(self)@, final(self)@, spec_heap_section(vma@), r),
            old(self)@.wf() ==> final(self)@.wf(),
    {
        let section = Section::heap(vma);
        self.add_section(section)
    }

    /// Optional boot config section which is placed before the vector
    /// table. This is commonly used in devices which boot from external
    /// memory devices and require a configuration section to describe
    /// the device they are booting from and how to proceed.
    pub fn boot_config(&mut self, size: W, name: &str, vma: RegionID) -> (r: Result<
        SectionID,
        LinkerError,
    >)
        ensures
            add_section_result(
                old(self)@,
                final(self)@,
                spec_boot_config_section(size.as_nat(), name@, vma@),
                r,
            ),
            old(self)@.wf() ==> final(self)@.wf(),
    {
        let section = Section::boot_config(size, name, vma);
        self.add_section(section)
    }

    /// Required vector table; by default this is placed at the beginning
    /// of the text section but it may be useful in some instances to
    /// load it to a different location.
    pub fn vector_table(&mut self, vma: RegionID, lma: Option<RegionID>) -> (r: Result<
        SectionID,
        LinkerError,
    >)
        ensures
            add_section_result(
                old(self)@,
                final(self)@,
                spec_vector_table_section(vma@, option_view(lma)),
                r,
            ),
            old(self)@.wf() ==> final(self)@.wf(),
    {
        let section = Section::vector_table(vma, lma);
        self.add_section(section)
    }

    /// Required text section
    pub fn text(&mut self, vma: RegionID, lma: Option<RegionID>) -> (r: Result<
        SectionID,
        LinkerError,
    >)
        ensures
            add_section_result(
                old(self)@,
                final(self)@,
                spec_text_section(vma@, option_view(lma)),
                r,
            ),
            old(self)@.wf() ==> final(self)@.wf(),
    {
        let section = Section::text(vma, lma);
        self.add_section(section)
    }

    /// Required data section
    pub fn data(&mut self, prefix: bool, vma: RegionID, lma: Option<RegionID>) -> (r: Result<
        SectionID,
        LinkerError,
    >)
        ensures
            add_section_result(
                old(self)@,
                final(self)@,
                spec_data_section(prefix, vma@, option_view(lma)),
                r,
            ),
            old(self)@.wf() ==> final(self)@.wf(),
    {
        let section = Section::data(prefix, vma, lma);
        self.add_section(section)
    }

    /// Required rodata section
    pub fn rodata(&mut self, prefix: bool, vma: RegionID, lma: Option<RegionID>) -> (r: Result<
        SectionID,
        LinkerError,
    >)
        ensures
            add_section_result(
                old(self)@,
                final(self)@,
                spec_rodata_section(prefix, vma@, option_view(lma)),
                r,
            ),
            old(self)@.wf() ==> final(self)@.wf(),
    {
        let section = Section::rodata(prefix, vma, lma);
        self.add_section(section)
    }

    /// Required bss section
    pub fn bss(&mut self, prefix: bool, vma: RegionID, lma: Option<RegionID>) -> (r: Result<
        SectionID,
        LinkerError,
    >)
        ensures
            add_section_result(
                old(self)@,
                final(self)@,
                spec_bss_section(prefix, vma@, option_view(lma)),
                r,
            ),
            old(self)@.wf() ==> final(self)@.wf(),
    {
        let section = Section::bss(prefix, vma, lma);
        self.add_section(section)
    }

    fn add_section(&mut self, section: Section<W>) -> (r: Result<SectionID, LinkerError>)
        ensures
            add_section_result(old(self)@, final(self)@, section@, r),
            old(self)@.wf() ==> final(self)@.wf(),
    {
        let ghost pre = self@;
        if self.contains_section_name(&section.name) {
            let name = section.name;
            return Err(LinkerError::DuplicateSection(name));
        }
        if !self.contains_region_name(&section.vma.0) {
            return Err(LinkerError::UnknownVMA(section.vma));
        }
        if let Some(l) = &section.lma {
            if !self.contains_region_name(&l.0) {
                return Err(LinkerError::UnknownLMA(l.clone()));
            }
        }
        let id = SectionID(section.name.clone());
        self.sections.push(section);
        proof {
            assert(self@.sections =~= pre.sections.push(self@.sections.last()));
            assert(self@.regions =~= pre.regions);
            if pre.wf() {
                assert forall|i: int, j: int|
                    0 <= i < j < self@.sections.len() implies self@.sections[i].name != self@
                    .sections[j].name by {
                    if j == self@.sections.len() - 1 {
                        assert(!pre.has_section(self@.sections[j].name));
                        assert(pre.sections[i].name != self@.sections[j].name);
                    }
                }
            }
        }
        Ok(id)
    }

    /// Generate the linker script text for this layout.
    ///
    /// The six mandatory sections must all have been declared; the first
    /// one found missing is reported. On success the text is exactly the
    /// deterministic rendering of the declared regions and sections.
    pub fn write(self) -> (r: Result<String, LinkerError>)
        ensures
            write_result(self@, W::spec_alignment(), r),
    {
        let stack_key = String::from_str("stack");
        if !self.contains_section_name(&stack_key) {
            return Err(LinkerError::MissingSection(stack_key));
        }
        let vt_key = String::from_str("vector_table");
        if !self.contains_section_name(&vt_key) {
            return Err(LinkerError::MissingSection(vt_key));
        }
        let text_key = String::from_str("text");
        if !self.contains_section_name(&text_key) {
            return Err(LinkerError::MissingSection(text_key));
        }
        let data_key = String::from_str("data");
        if !self.contains_section_name(&data_key) {
            return Err(LinkerError::MissingSection(data_key));
        }
        let rodata_key = String::from_str("rodata");
        if !self.contains_section_name(&rodata_key) {
            return Err(LinkerError::MissingSection(rodata_key));
        }
        let bss_key = String::from_str("bss");
        if !self.contains_section_name(&bss_key) {
            return Err(LinkerError::MissingSection(bss_key));
        }
        let text = generate::link::render(&self);
        proof {
            generate::link::lemma_render_nonempty(self@, W::spec_alignment());
        }
        Ok(text)
    }
}

} // verus!
