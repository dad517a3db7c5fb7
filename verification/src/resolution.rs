use vstd::prelude::*;
use crate::ebi_error::InputError;
use crate::ebi_file_handler::{
    handler_displays, trait_supporting_handlers, EbiFileHandler,
};
use crate::ebi_input::EbiInputType;
use crate::ebi_object::{EbiObject, EbiObjectType, EbiTraitObject};
use crate::ebi_trait::EbiTrait;
use crate::importer::ParserDispatch;
use crate::multiple_reader::MultipleReader;
use crate::text::string_views;

verus! {

/// Whether attempt position (h1, i1) comes strictly before (h2, i2) in
/// catalog order: earlier handler, or same handler and earlier importer.
pub open spec fn lex_before(h1: int, i1: int, h2: int, i2: int) -> bool {
    h1 < h2 || (h1 == h2 && i1 < i2)
}

/// Whether position (h, i) names a capability-importer for `et`: importer
/// `i` of handler `h` exists and declares the requested capability.
pub open spec fn is_trait_candidate(
    catalog: Seq<EbiFileHandler>,
    et: EbiTrait,
    h: int,
    i: int,
) -> bool {
    &&& 0 <= h < catalog.len()
    &&& 0 <= i < catalog[h].trait_importers@.len()
    &&& catalog[h].trait_importers@[i].get_trait_spec() == et
}

/// What the capability-importer at (h, i) returns on `bytes`.
pub open spec fn trait_attempt<D: ParserDispatch>(
    catalog: Seq<EbiFileHandler>,
    dispatch: D,
    bytes: Seq<u8>,
    h: int,
    i: int,
) -> Result<EbiTraitObject, Seq<char>> {
    catalog[h].trait_importers@[i].import_spec(dispatch, bytes)
}

/// Whether the candidate at (h, i) is the winner of `read_as_trait`: it
/// imports the bytes successfully and no earlier candidate does.
pub open spec fn trait_wins<D: ParserDispatch>(
    catalog: Seq<EbiFileHandler>,
    et: EbiTrait,
    dispatch: D,
    bytes: Seq<u8>,
    h: int,
    i: int,
) -> bool {
    &&& is_trait_candidate(catalog, et, h, i)
    &&& trait_attempt(catalog, dispatch, bytes, h, i) is Ok
    &&& forall|h2: int, i2: int|
        #[trigger] is_trait_candidate(catalog, et, h2, i2) && lex_before(h2, i2, h, i)
            ==> !(trait_attempt(catalog, dispatch, bytes, h2, i2) is Ok)
}

/// Whether any handler declares a capability-importer for `et`.
pub open spec fn some_trait_candidate(catalog: Seq<EbiFileHandler>, et: EbiTrait) -> bool {
    exists|h: int, i: int| is_trait_candidate(catalog, et, h, i)
}

/// Whether (h, i) is the last candidate position for `et` in catalog order.
pub open spec fn is_last_trait_candidate(
    catalog: Seq<EbiFileHandler>,
    et: EbiTrait,
    h: int,
    i: int,
) -> bool {
    &&& is_trait_candidate(catalog, et, h, i)
    &&& forall|h2: int, i2: int|
        #[trigger] is_trait_candidate(catalog, et, h2, i2) ==> !lex_before(h, i, h2, i2)
}

/// Resolve the bytes of `reader` as an object exposing the capability
/// `etrait`.
///
/// Walks the catalog in declaration order and, within one handler, its
/// capability-importers in declaration order; every importer declared for
/// `etrait` is attempted on a fresh view of the same bytes until the first
/// success, whose value is returned together with the winning handler's
/// catalog position. When candidates exist and all fail, the error of the
/// last attempted candidate is kept and wrapped with the requested
/// capability's name and the formats that were tried; when no handler
/// declares an importer for `etrait`, a distinct "nothing attempted"
/// failure is returned.
pub fn read_as_trait<D: ParserDispatch>(
    etrait: &EbiTrait,
    reader: &MultipleReader,
    catalog: &Vec<EbiFileHandler>,
    dispatch: &D,
) -> (r: Result<(EbiTraitObject, usize), InputError>)
    ensures
        (r matches Ok(p) ==> exists|h: int, i: int|
            {
                &&& #[trigger] trait_wins(catalog@, *etrait, *dispatch, reader@, h, i)
                &&& p.1 == h
                &&& trait_attempt(catalog@, *dispatch, reader@, h, i) matches Ok(o) && o == p.0
            }),
        (r matches Err(_) ==> forall|h: int, i: int|
            #[trigger] is_trait_candidate(catalog@, *etrait, h, i) ==> !(trait_attempt(
                catalog@,
                *dispatch,
                reader@,
                h,
                i,
            ) is Ok)),
        (r matches Err(e) ==> if some_trait_candidate(catalog@, *etrait) {
            exists|h: int, i: int|
                {
                    &&& #[trigger] is_last_trait_candidate(catalog@, *etrait, h, i)
                    &&& e matches InputError::Exhausted {
                        requested,
                        attempted,
                        last_handler,
                        last_error,
                    }
                    &&& requested@ == etrait.name_spec()
                    &&& string_views(attempted@) == handler_displays(
                        catalog@,
                        trait_supporting_handlers(catalog@, *etrait),
                    )
                    &&& last_handler@ == catalog@[h].display_spec()
                    &&& trait_attempt(catalog@, *dispatch, reader@, h, i) matches Err(m)
                        && last_error@ == m
                }
        } else {
            e matches InputError::NothingAttempted { requested } && requested@
                == etrait.name_spec()
        }),
{
    let bytes = reader.get();
    let mut last_handler: Option<String> = None;
    let mut last_error: Option<String> = None;
    let mut h: usize = 0;
    while h < catalog.len()
        invariant
            0 <= h <= catalog@.len(),
            bytes@ == reader@,
            forall|h2: int, i2: int|
                #[trigger] is_trait_candidate(catalog@, *etrait, h2, i2) && h2 < h ==> !(
                trait_attempt(catalog@, *dispatch, reader@, h2, i2) is Ok),
            last_error is Some <==> last_handler is Some,
            last_error is None ==> forall|h2: int, i2: int|
                #[trigger] is_trait_candidate(catalog@, *etrait, h2, i2) ==> h2 >= h,
            last_error is Some ==> exists|h2: int, i2: int|
                {
                    &&& #[trigger] is_trait_candidate(catalog@, *etrait, h2, i2)
                    &&& h2 < h
                    &&& forall|h3: int, i3: int|
                        #[trigger] is_trait_candidate(catalog@, *etrait, h3, i3) && h3 < h
                            ==> !lex_before(h2, i2, h3, i3)
                    &&& last_handler matches Some(lh) && lh@ == catalog@[h2].display_spec()
                    &&& trait_attempt(catalog@, *dispatch, reader@, h2, i2) matches Err(m)
                        && last_error matches Some(le) && le@ == m
                },
        decreases catalog@.len() - h,
    {
        let handler = &catalog[h];
        let n = handler.trait_importers.len();
        let mut i: usize = 0;
        while i < n
            invariant
                0 <= h < catalog@.len(),
                0 <= i <= n,
                bytes@ == reader@,
                handler == catalog@[h as int],
                n == handler.trait_importers@.len(),
                forall|h2: int, i2: int|
                    #[trigger] is_trait_candidate(catalog@, *etrait, h2, i2) && lex_before(
                        h2,
                        i2,
                        h as int,
                        i as int,
                    ) ==> !(trait_attempt(catalog@, *dispatch, reader@, h2, i2) is Ok),
                last_error is Some <==> last_handler is Some,
                last_error is None ==> forall|h2: int, i2: int|
                    #[trigger] is_trait_candidate(catalog@, *etrait, h2, i2) ==> !lex_before(
                        h2,
                        i2,
                        h as int,
                        i as int,
                    ),
                last_error is Some ==> exists|h2: int, i2: int|
                    {
                        &&& #[trigger] is_trait_candidate(catalog@, *etrait, h2, i2)
                        &&& lex_before(h2, i2, h as int, i as int)
                        &&& forall|h3: int, i3: int|
                            #[trigger] is_trait_candidate(catalog@, *etrait, h3, i3) && lex_before(
                                h3,
                                i3,
                                h as int,
                                i as int,
                            ) ==> !lex_before(h2, i2, h3, i3)
                        &&& last_handler matches Some(lh) && lh@ == catalog@[h2].display_spec()
                        &&& trait_attempt(catalog@, *dispatch, reader@, h2, i2) matches Err(m)
                            && last_error matches Some(le) && le@ == m
                    },
            decreases n - i,
        {
            let imp = &handler.trait_importers[i];
            if imp.get_trait() == *etrait {
                assert(is_trait_candidate(catalog@, *etrait, h as int, i as int));
                match imp.import(dispatch, bytes) {
                    Ok(object) => {
                        assert(trait_wins(
                            catalog@,
                            *etrait,
                            *dispatch,
                            reader@,
                            h as int,
                            i as int,
                        ));
                        return Ok((object, h));
                    },
                    Err(msg) => {
                        last_handler = Some(handler.display_string());
                        last_error = Some(msg);
                        assert(trait_attempt(
                            catalog@,
                            *dispatch,
                            reader@,
                            h as int,
                            i as int,
                        ) is Err);
                    },
                }
            }
            i = i + 1;
        }
        h = h + 1;
    }
    let requested = etrait.name();
    match (last_handler, last_error) {
        (Some(lh), Some(le)) => {
            let supporting = etrait.get_file_handlers(catalog);
            let attempted = EbiInputType::show_file_handlers(catalog, &supporting);
            assert(some_trait_candidate(catalog@, *etrait));
            proof {
                let (h2, i2) = choose|h2: int, i2: int|
                    {
                        &&& #[trigger] is_trait_candidate(catalog@, *etrait, h2, i2)
                        &&& h2 < catalog@.len()
                        &&& forall|h3: int, i3: int|
                            #[trigger] is_trait_candidate(catalog@, *etrait, h3, i3) && h3
                                < catalog@.len() ==> !lex_before(h2, i2, h3, i3)
                        &&& lh@ == catalog@[h2].display_spec()
                        &&& trait_attempt(catalog@, *dispatch, reader@, h2, i2) matches Err(m)
                            && le@ == m
                    };
                assert(is_last_trait_candidate(catalog@, *etrait, h2, i2));
            }
            Err(InputError::Exhausted {
                requested,
                attempted,
                last_handler: lh,
                last_error: le,
            })
        },
        _ => {
            assert(!some_trait_candidate(catalog@, *etrait));
            Err(InputError::NothingAttempted { requested })
        },
    }
}

/// Whether position (h, i) names an object-importer that the request
/// admits: importer `i` of handler `h` exists and, when a concrete kind is
/// requested, produces exactly that kind. A request of `None` stands for
/// "any object" and admits every object-importer.
pub open spec fn is_object_candidate(
    catalog: Seq<EbiFileHandler>,
    filter: Option<EbiObjectType>,
    h: int,
    i: int,
) -> bool {
    &&& 0 <= h < catalog.len()
    &&& 0 <= i < catalog[h].object_importers@.len()
    &&& match filter {
        Some(ot) => catalog[h].object_importers@[i].get_type_spec() == ot,
        None => true,
    }
}

/// What the object-importer at (h, i) returns on `bytes`.
pub open spec fn object_attempt<D: ParserDispatch>(
    catalog: Seq<EbiFileHandler>,
    dispatch: D,
    bytes: Seq<u8>,
    h: int,
    i: int,
) -> Result<EbiObject, Seq<char>> {
    catalog[h].object_importers@[i].import_spec(dispatch, bytes)
}

/// Whether the admitted candidate at (h, i) is the winner of an object
/// resolution: it imports the bytes successfully and no earlier admitted
/// candidate does.
pub open spec fn object_wins<D: ParserDispatch>(
    catalog: Seq<EbiFileHandler>,
    filter: Option<EbiObjectType>,
    dispatch: D,
    bytes: Seq<u8>,
    h: int,
    i: int,
) -> bool {
    &&& is_object_candidate(catalog, filter, h, i)
    &&& object_attempt(catalog, dispatch, bytes, h, i) is Ok
    &&& forall|h2: int, i2: int|
        #[trigger] is_object_candidate(catalog, filter, h2, i2) && lex_before(h2, i2, h, i)
            ==> !(object_attempt(catalog, dispatch, bytes, h2, i2) is Ok)
}

/// The shared traversal of the object resolutions: try the admitted
/// object-importers in catalog order on fresh views of the bytes and stop
/// at the first success. Per-attempt failures are discarded; exhaustion
/// reports only that the file was not recognised, with no underlying cause.
fn read_object_filtered<D: ParserDispatch>(
    filter: Option<&EbiObjectType>,
    reader: &MultipleReader,
    catalog: &Vec<EbiFileHandler>,
    dispatch: &D,
) -> (r: Result<(EbiObject, usize), InputError>)
    ensures
        (r matches Ok(p) ==> exists|h: int, i: int|
            {
                &&& #[trigger] object_wins(
                    catalog@,
                    option_kind(filter),
                    *dispatch,
                    reader@,
                    h,
                    i,
                )
                &&& p.1 == h
                &&& object_attempt(catalog@, *dispatch, reader@, h, i) matches Ok(o) && o == p.0
            }),
        (r matches Err(e) ==> {
            &&& e matches InputError::NotRecognised
            &&& forall|h: int, i: int|
                #[trigger] is_object_candidate(catalog@, option_kind(filter), h, i) ==> !(
                object_attempt(catalog@, *dispatch, reader@, h, i) is Ok)
        }),
{
    let bytes = reader.get();
    let mut h: usize = 0;
    while h < catalog.len()
        invariant
            0 <= h <= catalog@.len(),
            bytes@ == reader@,
            forall|h2: int, i2: int|
                #[trigger] is_object_candidate(catalog@, option_kind(filter), h2, i2) && h2 < h
                    ==> !(object_attempt(catalog@, *dispatch, reader@, h2, i2) is Ok),
        decreases catalog@.len() - h,
    {
        let handler = &catalog[h];
        let n = handler.object_importers.len();
        let mut i: usize = 0;
        while i < n
            invariant
                0 <= h < catalog@.len(),
                0 <= i <= n,
                bytes@ == reader@,
                handler == catalog@[h as int],
                n == handler.object_importers@.len(),
                forall|h2: int, i2: int|
                    #[trigger] is_object_candidate(catalog@, option_kind(filter), h2, i2)
                        && lex_before(h2, i2, h as int, i as int) ==> !(object_attempt(
                        catalog@,
                        *dispatch,
                        reader@,
                        h2,
                        i2,
                    ) is Ok),
            decreases n - i,
        {
            let imp = &handler.object_importers[i];
            let admitted = match filter {
                Some(ot) => imp.get_type() == *ot,
                None => true,
            };
            if admitted {
                assert(is_object_candidate(catalog@, option_kind(filter), h as int, i as int));
                if let Ok(object) = imp.import(dispatch, bytes) {
                    assert(object_wins(
                        catalog@,
                        option_kind(filter),
                        *dispatch,
                        reader@,
                        h as int,
                        i as int,
                    ));
                    return Ok((object, h));
                }
            }
            i = i + 1;
        }
        h = h + 1;
    }
    Err(InputError::NotRecognised)
}

/// The requested kind of an object resolution, with `None` standing for
/// "any object".
pub open spec fn option_kind(filter: Option<&EbiObjectType>) -> Option<EbiObjectType> {
    match filter {
        Some(ot) => Some(*ot),
        None => None,
    }
}

/// Resolve the bytes of `reader` as a concrete object of kind `etype`.
///
/// Walks the catalog in declaration order and attempts, on a fresh view of
/// the same bytes, every object-importer that produces the requested kind;
/// the first success wins and is returned with the winning handler's
/// catalog position. Unlike `read_as_trait`, per-attempt failures are
/// discarded entirely: exhaustion yields a plain "not recognised" failure
/// that carries no underlying cause.
pub fn read_as_object<D: ParserDispatch>(
    etype: &EbiObjectType,
    reader: &MultipleReader,
    catalog: &Vec<EbiFileHandler>,
    dispatch: &D,
) -> (r: Result<(EbiObject, usize), InputError>)
    ensures
        (r matches Ok(p) ==> exists|h: int, i: int|
            {
                &&& #[trigger] object_wins(catalog@, Some(*etype), *dispatch, reader@, h, i)
                &&& p.1 == h
                &&& object_attempt(catalog@, *dispatch, reader@, h, i) matches Ok(o) && o == p.0
            }),
        (r matches Err(e) ==> {
            &&& e matches InputError::NotRecognised
            &&& forall|h: int, i: int|
                #[trigger] is_object_candidate(catalog@, Some(*etype), h, i) ==> !(object_attempt(
                    catalog@,
                    *dispatch,
                    reader@,
                    h,
                    i,
                ) is Ok)
        }),
{
    read_object_filtered(Some(etype), reader, catalog, dispatch)
}

/// Resolve the bytes of `reader` as an object of any known kind.
///
/// The traversal and the discard-on-failure error policy are those of
/// `read_as_object`, but no kind filter is applied: every object-importer
/// of every handler is a candidate, and the first success is returned
/// whatever kind it produces.
pub fn read_as_any_object<D: ParserDispatch>(
    reader: &MultipleReader,
    catalog: &Vec<EbiFileHandler>,
    dispatch: &D,
) -> (r: Result<(EbiObject, usize), InputError>)
    ensures
        (r matches Ok(p) ==> exists|h: int, i: int|
            {
                &&& #[trigger] object_wins(
                    catalog@,
                    None::<EbiObjectType>,
                    *dispatch,
                    reader@,
                    h,
                    i,
                )
                &&& p.1 == h
                &&& object_attempt(catalog@, *dispatch, reader@, h, i) matches Ok(o) && o == p.0
            }),
        (r matches Err(e) ==> {
            &&& e matches InputError::NotRecognised
            &&& forall|h: int, i: int|
                #[trigger] is_object_candidate(catalog@, None::<EbiObjectType>, h, i) ==> !(
                object_attempt(catalog@, *dispatch, reader@, h, i) is Ok)
        }),
{
    read_object_filtered(None, reader, catalog, dispatch)
}

/// Check, with no retry and no fallback, whether the bytes of `reader`
/// conform to the format of exactly the given handler: one fresh view is
/// handed to the handler's validator, and its verdict is returned verbatim.
pub fn validate_object_of<D: ParserDispatch>(
    reader: &MultipleReader,
    file_handler: &EbiFileHandler,
    dispatch: &D,
) -> (r: Result<(), String>)
    ensures
        match dispatch.parse_spec(file_handler.validator, reader@) {
            Ok(_) => r is Ok,
            Err(e) => r matches Err(m) && m@ == e,
        },
{
    match dispatch.parse(file_handler.validator, reader.get()) {
        Ok(_) => Ok(()),
        Err(m) => Err(m),
    }
}

/// Order-priority: when several candidates accept the same bytes, the
/// winner of `read_as_trait` never stands after any accepting candidate in
/// catalog/declaration order — the earliest accepting candidate wins.
pub proof fn lemma_order_priority<D: ParserDispatch>(
    catalog: Seq<EbiFileHandler>,
    et: EbiTrait,
    dispatch: D,
    bytes: Seq<u8>,
    h1: int,
    i1: int,
    h2: int,
    i2: int,
)
    requires
        is_trait_candidate(catalog, et, h1, i1),
        trait_attempt(catalog, dispatch, bytes, h1, i1) is Ok,
        trait_wins(catalog, et, dispatch, bytes, h2, i2),
    ensures
        !lex_before(h1, i1, h2, i2),
{
}

/// At most one candidate wins one resolution call.
pub proof fn lemma_winner_unique<D: ParserDispatch>(
    catalog: Seq<EbiFileHandler>,
    et: EbiTrait,
    dispatch: D,
    bytes: Seq<u8>,
    h1: int,
    i1: int,
    h2: int,
    i2: int,
)
    requires
        trait_wins(catalog, et, dispatch, bytes, h1, i1),
        trait_wins(catalog, et, dispatch, bytes, h2, i2),
    ensures
        h1 == h2 && i1 == i2,
{
    if lex_before(h1, i1, h2, i2) {
        assert(!(trait_attempt(catalog, dispatch, bytes, h1, i1) is Ok));
    } else if lex_before(h2, i2, h1, i1) {
        assert(!(trait_attempt(catalog, dispatch, bytes, h2, i2) is Ok));
    }
}

/// At most one candidate wins one object resolution call.
pub proof fn lemma_object_winner_unique<D: ParserDispatch>(
    catalog: Seq<EbiFileHandler>,
    filter: Option<EbiObjectType>,
    dispatch: D,
    bytes: Seq<u8>,
    h1: int,
    i1: int,
    h2: int,
    i2: int,
)
    requires
        object_wins(catalog, filter, dispatch, bytes, h1, i1),
        object_wins(catalog, filter, dispatch, bytes, h2, i2),
    ensures
        h1 == h2 && i1 == i2,
{
    if lex_before(h1, i1, h2, i2) {
        assert(!(object_attempt(catalog, dispatch, bytes, h1, i1) is Ok));
    } else if lex_before(h2, i2, h1, i1) {
        assert(!(object_attempt(catalog, dispatch, bytes, h2, i2) is Ok));
    }
}

/// Rewind correctness, capability side: failed earlier attempts cannot
/// spoil a later one. Every attempt works on a fresh view of the same full
/// byte content, so a candidate that accepts the bytes wins as soon as
/// every earlier candidate rejects them.
pub proof fn lemma_first_success_wins<D: ParserDispatch>(
    catalog: Seq<EbiFileHandler>,
    et: EbiTrait,
    dispatch: D,
    bytes: Seq<u8>,
    h: int,
    i: int,
)
    requires
        is_trait_candidate(catalog, et, h, i),
        trait_attempt(catalog, dispatch, bytes, h, i) is Ok,
        forall|h2: int, i2: int|
            #[trigger] is_trait_candidate(catalog, et, h2, i2) && lex_before(h2, i2, h, i) ==> !(
            trait_attempt(catalog, dispatch, bytes, h2, i2) is Ok),
    ensures
        trait_wins(catalog, et, dispatch, bytes, h, i),
{
}

/// Rewind correctness, object side: the counterpart of
/// `lemma_first_success_wins` for `read_as_object` and
/// `read_as_any_object`.
pub proof fn lemma_first_object_success_wins<D: ParserDispatch>(
    catalog: Seq<EbiFileHandler>,
    filter: Option<EbiObjectType>,
    dispatch: D,
    bytes: Seq<u8>,
    h: int,
    i: int,
)
    requires
        is_object_candidate(catalog, filter, h, i),
        object_attempt(catalog, dispatch, bytes, h, i) is Ok,
        forall|h2: int, i2: int|
            #[trigger] is_object_candidate(catalog, filter, h2, i2) && lex_before(h2, i2, h, i)
                ==> !(object_attempt(catalog, dispatch, bytes, h2, i2) is Ok),
    ensures
        object_wins(catalog, filter, dispatch, bytes, h, i),
{
}

} // verus!
