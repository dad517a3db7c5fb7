use vstd::prelude::*;
use vstd::string::StringExecFns;
use crate::ebi_object::EbiObjectType;
use crate::ebi_trait::EbiTrait;
use crate::importer::{EbiObjectImporter, EbiTraitImporter, ParserId};

verus! {

/// The mathematical content of a `JavaObjectHandler`.
pub struct JavaObjectHandlerView {
    pub name: Seq<char>,
    pub java_class: Seq<char>,
    pub translator_ebi_to_java: Option<Seq<char>>,
    pub translator_java_to_ebi: Option<Seq<char>>,
}

/// An interop descriptor: names a host-native type and the optional
/// translator entry points between the host's representation and this
/// system's objects. The core only filters and flattens these descriptors;
/// it never invokes a translator.
pub struct JavaObjectHandler {
    pub name: String,
    pub java_class: String,
    pub translator_ebi_to_java: Option<String>,
    pub translator_java_to_ebi: Option<String>,
}

/// The characters of an optional string.
pub open spec fn option_string_view(o: Option<String>) -> Option<Seq<char>> {
    match o {
        Some(s) => Some(s@),
        None => None,
    }
}

impl View for JavaObjectHandler {
    type V = JavaObjectHandlerView;

    open spec fn view(&self) -> JavaObjectHandlerView {
        JavaObjectHandlerView {
            name: self.name@,
            java_class: self.java_class@,
            translator_ebi_to_java: option_string_view(self.translator_ebi_to_java),
            translator_java_to_ebi: option_string_view(self.translator_java_to_ebi),
        }
    }
}

/// Whether two optional strings hold the same characters.
pub fn option_string_eq(a: &Option<String>, b: &Option<String>) -> (r: bool)
    ensures
        r == (option_string_view(*a) == option_string_view(*b)),
{
    match (a, b) {
        (Some(x), Some(y)) => {
            let r = *x == *y;
            proof {
                assert(option_string_view(*a) == Some(x@));
                assert(option_string_view(*b) == Some(y@));
            }
            r
        },
        (None, None) => true,
        (Some(x), None) => {
            proof {
                assert(option_string_view(*a) == Some(x@));
            }
            false
        },
        (None, Some(y)) => {
            proof {
                assert(option_string_view(*b) == Some(y@));
            }
            false
        },
    }
}

impl JavaObjectHandler {
    /// An identical copy of the descriptor.
    pub fn duplicate(&self) -> (r: JavaObjectHandler)
        ensures
            r@ == self@,
    {
        JavaObjectHandler {
            name: self.name.clone(),
            java_class: self.java_class.clone(),
            translator_ebi_to_java: match &self.translator_ebi_to_java {
                Some(s) => Some(s.clone()),
                None => None,
            },
            translator_java_to_ebi: match &self.translator_java_to_ebi {
                Some(s) => Some(s.clone()),
                None => None,
            },
        }
    }

    /// Whether the two descriptors are identical.
    pub fn same_as(&self, other: &JavaObjectHandler) -> (r: bool)
        ensures
            r == (self@ == other@),
    {
        let r = self.name == other.name && self.java_class == other.java_class
            && option_string_eq(&self.translator_ebi_to_java, &other.translator_ebi_to_java)
            && option_string_eq(&self.translator_java_to_ebi, &other.translator_java_to_ebi);
        proof {
            if r {
                assert(self@ == other@);
            }
        }
        r
    }
}

/// One format of the catalog: its identity (name and canonical file
/// extension), its capability-importers and object-importers in declaration
/// order, the parser that validates the format, and its interop
/// descriptors. Handlers are built once and never mutated afterwards.
pub struct EbiFileHandler {
    pub name: String,
    pub file_extension: String,
    pub trait_importers: Vec<EbiTraitImporter>,
    pub object_importers: Vec<EbiObjectImporter>,
    pub validator: ParserId,
    pub java_object_handlers: Vec<JavaObjectHandler>,
}

impl EbiFileHandler {
    /// The display name of the handler: its name followed by its file
    /// extension.
    pub open spec fn display_spec(self) -> Seq<char> {
        self.name@ + " (."@ + self.file_extension@ + ")"@
    }

    /// The display name of the handler, used in listings and error messages.
    pub fn display_string(&self) -> (r: String)
        ensures
            r@ == self.display_spec(),
    {
        let mut r = String::new();
        r.append(self.name.as_str());
        r.append(" (.");
        r.append(self.file_extension.as_str());
        r.append(")");
        r
    }

    /// The display name of the handler wrapped in a LaTeX cross-reference
    /// to the handler's documentation anchor.
    pub open spec fn latex_display_spec(self) -> Seq<char> {
        "\\hyperref[filehandler:"@ + self.name@ + "]{"@ + self.display_spec() + "}"@
    }

    /// The display name of the handler wrapped in a LaTeX cross-reference
    /// to the handler's documentation anchor.
    pub fn latex_display_string(&self) -> (r: String)
        ensures
            r@ == self.latex_display_spec(),
    {
        let mut r = String::new();
        r.append("\\hyperref[filehandler:");
        r.append(self.name.as_str());
        r.append("]{");
        let d = self.display_string();
        r.append(d.as_str());
        r.append("}");
        r
    }

    /// Whether the handler declares a capability-importer for `et`.
    pub open spec fn declares_trait_importer(self, et: EbiTrait) -> bool {
        exists|i: int|
            0 <= i < self.trait_importers@.len() && self.trait_importers@[i].get_trait_spec() == et
    }

    /// Whether the handler declares a capability-importer for `et`.
    pub fn has_trait_importer(&self, et: EbiTrait) -> (r: bool)
        ensures
            r == self.declares_trait_importer(et),
    {
        let mut i: usize = 0;
        while i < self.trait_importers.len()
            invariant
                0 <= i <= self.trait_importers@.len(),
                forall|k: int| 0 <= k < i ==> self.trait_importers@[k].get_trait_spec() != et,
            decreases self.trait_importers@.len() - i,
        {
            if self.trait_importers[i].get_trait() == et {
                return true;
            }
            i = i + 1;
        }
        false
    }

    /// Whether the handler declares an object-importer producing `ot`.
    pub open spec fn declares_object_importer(self, ot: EbiObjectType) -> bool {
        exists|i: int|
            0 <= i < self.object_importers@.len() && self.object_importers@[i].get_type_spec()
                == ot
    }

    /// Whether the handler declares an object-importer producing `ot`.
    pub fn has_object_importer(&self, ot: EbiObjectType) -> (r: bool)
        ensures
            r == self.declares_object_importer(ot),
    {
        let mut i: usize = 0;
        while i < self.object_importers.len()
            invariant
                0 <= i <= self.object_importers@.len(),
                forall|k: int| 0 <= k < i ==> self.object_importers@[k].get_type_spec() != ot,
            decreases self.object_importers@.len() - i,
        {
            if self.object_importers[i].get_type() == ot {
                return true;
            }
            i = i + 1;
        }
        false
    }
}

/// The positions, in catalog order, of the handlers that declare a
/// capability-importer for `et`.
pub open spec fn trait_supporting_handlers(catalog: Seq<EbiFileHandler>, et: EbiTrait) -> Seq<
    usize,
>
    decreases catalog.len(),
{
    if catalog.len() == 0 {
        Seq::empty()
    } else {
        let pre = trait_supporting_handlers(catalog.drop_last(), et);
        if catalog.last().declares_trait_importer(et) {
            pre.push((catalog.len() - 1) as usize)
        } else {
            pre
        }
    }
}

/// The positions, in catalog order, of the handlers that declare an
/// object-importer producing `ot`.
pub open spec fn object_supporting_handlers(
    catalog: Seq<EbiFileHandler>,
    ot: EbiObjectType,
) -> Seq<usize>
    decreases catalog.len(),
{
    if catalog.len() == 0 {
        Seq::empty()
    } else {
        let pre = object_supporting_handlers(catalog.drop_last(), ot);
        if catalog.last().declares_object_importer(ot) {
            pre.push((catalog.len() - 1) as usize)
        } else {
            pre
        }
    }
}

/// The positions of all handlers of the catalog, in catalog order.
pub open spec fn all_handler_positions(catalog: Seq<EbiFileHandler>) -> Seq<usize> {
    Seq::new(catalog.len(), |i: int| i as usize)
}

/// The display names, in order, of the given handler positions.
pub open spec fn handler_displays(catalog: Seq<EbiFileHandler>, hs: Seq<usize>) -> Seq<Seq<char>> {
    hs.map_values(|h: usize| catalog[h as int].display_spec())
}

/// The LaTeX cross-referenced display names, in order, of the given handler
/// positions.
pub open spec fn handler_latex_displays(
    catalog: Seq<EbiFileHandler>,
    hs: Seq<usize>,
) -> Seq<Seq<char>> {
    hs.map_values(|h: usize| catalog[h as int].latex_display_spec())
}

/// The mathematical content of a sequence of interop descriptors.
pub open spec fn java_views(s: Seq<JavaObjectHandler>) -> Seq<JavaObjectHandlerView> {
    s.map_values(|j: JavaObjectHandler| j@)
}

/// The interop descriptors of the given handler positions, flattened in
/// order: the descriptors of each listed handler, one handler after the
/// other.
pub open spec fn java_handlers_concat(
    catalog: Seq<EbiFileHandler>,
    hs: Seq<usize>,
) -> Seq<JavaObjectHandlerView>
    decreases hs.len(),
{
    if hs.len() == 0 {
        Seq::empty()
    } else {
        java_handlers_concat(catalog, hs.drop_last()) + java_views(
            catalog[hs.last() as int].java_object_handlers@,
        )
    }
}

/// Every supporting-handler position is a catalog position of a handler
/// that declares a matching capability-importer, and every such handler is
/// listed.
pub proof fn lemma_trait_supporting_handlers(catalog: Seq<EbiFileHandler>, et: EbiTrait)
    requires
        catalog.len() <= usize::MAX,
    ensures
        forall|k: int|
            0 <= k < trait_supporting_handlers(catalog, et).len() ==> {
                let h = #[trigger] trait_supporting_handlers(catalog, et)[k];
                h < catalog.len() && catalog[h as int].declares_trait_importer(et)
            },
        forall|h: int|
            0 <= h < catalog.len() && catalog[h].declares_trait_importer(et)
                ==> trait_supporting_handlers(catalog, et).contains(h as usize),
    decreases catalog.len(),
{
    if catalog.len() > 0 {
        lemma_trait_supporting_handlers(catalog.drop_last(), et);
        let pre = trait_supporting_handlers(catalog.drop_last(), et);
        let s = trait_supporting_handlers(catalog, et);
        assert(forall|k: int|
            0 <= k < catalog.len() - 1 ==> catalog.drop_last()[k] == catalog[k]);
        assert forall|k: int| 0 <= k < s.len() implies {
            let h = #[trigger] s[k];
            h < catalog.len() && catalog[h as int].declares_trait_importer(et)
        } by {
            if k < pre.len() {
                assert(s[k] == pre[k]);
                assert(catalog[pre[k] as int] == catalog.drop_last()[pre[k] as int]);
            } else {
                assert(catalog.last().declares_trait_importer(et));
                assert(s[k] == (catalog.len() - 1) as usize);
            }
        }
        assert forall|h: int|
            0 <= h < catalog.len() && catalog[h].declares_trait_importer(et) implies s.contains(
            h as usize,
        ) by {
            if h == catalog.len() - 1 {
                assert(catalog.last().declares_trait_importer(et));
                assert(s.last() == h as usize);
            } else {
                assert(catalog.drop_last()[h].declares_trait_importer(et));
                assert(pre.contains(h as usize));
                let k = choose|k: int| 0 <= k < pre.len() && pre[k] == h as usize;
                assert(s[k] == h as usize);
            }
        }
    }
}

/// The object-importer counterpart of `lemma_trait_supporting_handlers`.
pub proof fn lemma_object_supporting_handlers(catalog: Seq<EbiFileHandler>, ot: EbiObjectType)
    requires
        catalog.len() <= usize::MAX,
    ensures
        forall|k: int|
            0 <= k < object_supporting_handlers(catalog, ot).len() ==> {
                let h = #[trigger] object_supporting_handlers(catalog, ot)[k];
                h < catalog.len() && catalog[h as int].declares_object_importer(ot)
            },
        forall|h: int|
            0 <= h < catalog.len() && catalog[h].declares_object_importer(ot)
                ==> object_supporting_handlers(catalog, ot).contains(h as usize),
    decreases catalog.len(),
{
    if catalog.len() > 0 {
        lemma_object_supporting_handlers(catalog.drop_last(), ot);
        let pre = object_supporting_handlers(catalog.drop_last(), ot);
        let s = object_supporting_handlers(catalog, ot);
        assert(forall|k: int|
            0 <= k < catalog.len() - 1 ==> catalog.drop_last()[k] == catalog[k]);
        assert forall|k: int| 0 <= k < s.len() implies {
            let h = #[trigger] s[k];
            h < catalog.len() && catalog[h as int].declares_object_importer(ot)
        } by {
            if k < pre.len() {
                assert(s[k] == pre[k]);
                assert(catalog[pre[k] as int] == catalog.drop_last()[pre[k] as int]);
            } else {
                assert(catalog.last().declares_object_importer(ot));
                assert(s[k] == (catalog.len() - 1) as usize);
            }
        }
        assert forall|h: int|
            0 <= h < catalog.len() && catalog[h].declares_object_importer(ot) implies s.contains(
            h as usize,
        ) by {
            if h == catalog.len() - 1 {
                assert(catalog.last().declares_object_importer(ot));
                assert(s.last() == h as usize);
            } else {
                assert(catalog.drop_last()[h].declares_object_importer(ot));
                assert(pre.contains(h as usize));
                let k = choose|k: int| 0 <= k < pre.len() && pre[k] == h as usize;
                assert(s[k] == h as usize);
            }
        }
    }
}

impl EbiTrait {
    /// The handlers, in catalog order, that declare a capability-importer
    /// for this capability: exactly the positions of the declaring
    /// handlers, found by a linear scan of the catalog.
    pub fn get_file_handlers(&self, catalog: &Vec<EbiFileHandler>) -> (r: Vec<usize>)
        ensures
            r@ == trait_supporting_handlers(catalog@, *self),
            forall|k: int|
                0 <= k < r@.len() ==> #[trigger] r@[k] < catalog@.len()
                    && catalog@[r@[k] as int].declares_trait_importer(*self),
            forall|hh: int|
                0 <= hh < catalog@.len() && #[trigger] catalog@[hh].declares_trait_importer(*self)
                    ==> r@.contains(hh as usize),
    {
        let n = catalog.len();
        proof {
            lemma_trait_supporting_handlers(catalog@, *self);
        }
        let mut r: Vec<usize> = Vec::new();
        let mut h: usize = 0;
        while h < n
            invariant
                0 <= h <= n == catalog@.len(),
                r@ == trait_supporting_handlers(catalog@.take(h as int), *self),
                forall|k: int| 0 <= k < r@.len() ==> r@[k] < catalog@.len(),
            decreases catalog@.len() - h,
        {
            proof {
                assert(catalog@.take(h + 1 as int).drop_last() =~= catalog@.take(h as int));
                assert(catalog@.take(h + 1 as int).last() == catalog@[h as int]);
            }
            if catalog[h].has_trait_importer(*self) {
                r.push(h);
            }
            h = h + 1;
        }
        proof {
            assert(catalog@.take(catalog@.len() as int) =~= catalog@);
        }
        r
    }
}

impl EbiObjectType {
    /// The handlers, in catalog order, that declare an object-importer
    /// producing this kind: exactly the positions of the declaring
    /// handlers, found by a linear scan of the catalog.
    pub fn get_file_handlers(&self, catalog: &Vec<EbiFileHandler>) -> (r: Vec<usize>)
        ensures
            r@ == object_supporting_handlers(catalog@, *self),
            forall|k: int|
                0 <= k < r@.len() ==> #[trigger] r@[k] < catalog@.len()
                    && catalog@[r@[k] as int].declares_object_importer(*self),
            forall|hh: int|
                0 <= hh < catalog@.len() && #[trigger] catalog@[hh].declares_object_importer(*self)
                    ==> r@.contains(hh as usize),
    {
        let n = catalog.len();
        proof {
            lemma_object_supporting_handlers(catalog@, *self);
        }
        let mut r: Vec<usize> = Vec::new();
        let mut h: usize = 0;
        while h < n
            invariant
                0 <= h <= n == catalog@.len(),
                r@ == object_supporting_handlers(catalog@.take(h as int), *self),
                forall|k: int| 0 <= k < r@.len() ==> r@[k] < catalog@.len(),
            decreases catalog@.len() - h,
        {
            proof {
                assert(catalog@.take(h + 1 as int).drop_last() =~= catalog@.take(h as int));
                assert(catalog@.take(h + 1 as int).last() == catalog@[h as int]);
            }
            if catalog[h].has_object_importer(*self) {
                r.push(h);
            }
            h = h + 1;
        }
        proof {
            assert(catalog@.take(catalog@.len() as int) =~= catalog@);
        }
        r
    }
}

/// The positions of all handlers of the catalog, in catalog order.
pub fn all_handlers(catalog: &Vec<EbiFileHandler>) -> (r: Vec<usize>)
    ensures
        r@ == all_handler_positions(catalog@),
        forall|k: int| 0 <= k < r@.len() ==> r@[k] < catalog@.len(),
{
    let mut r: Vec<usize> = Vec::new();
    let mut h: usize = 0;
    while h < catalog.len()
        invariant
            0 <= h <= catalog@.len(),
            r@.len() == h,
            forall|k: int| 0 <= k < h ==> r@[k] == k as usize,
        decreases catalog@.len() - h,
    {
        r.push(h);
        h = h + 1;
    }
    proof {
        assert(r@ =~= all_handler_positions(catalog@));
    }
    r
}

} // verus!
