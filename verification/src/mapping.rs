use vstd::prelude::*;
use vstd::string::StringExecFns;

use crate::transform::{
    spec_transform, SpecTransformError, Transformation, TransformationError,
};
use crate::value::{
    spec_entries_contains_key, spec_entries_get, spec_entries_insert, Record, SpecValue, Value,
};

verus! {

broadcast use crate::value::lemma_value_view;

/// Abstract model of a mapping failure.
pub enum SpecMapError {
    SourceNotMap,
    SourceFieldNonExistent(Seq<char>),
    DestinationFieldAlreadyPresent(Seq<char>),
    Transformation(Seq<char>, SpecTransformError),
}

/// Why mapping a record failed: a non-record input, a missing source field,
/// a destination collision, or a failing transformation (tagged with the
/// destination field it was meant for).
#[derive(Debug)]
pub enum MapError {
    SourceNotMap,
    SourceFieldNonExistent(String),
    DestinationFieldAlreadyPresent(String),
    Transformation(String, TransformationError),
}

impl View for MapError {
    type V = SpecMapError;

    open spec fn view(&self) -> SpecMapError {
        match self {
            MapError::SourceNotMap => SpecMapError::SourceNotMap,
            MapError::SourceFieldNonExistent(f) => SpecMapError::SourceFieldNonExistent(f@),
            MapError::DestinationFieldAlreadyPresent(f) => SpecMapError::DestinationFieldAlreadyPresent(
                f@,
            ),
            MapError::Transformation(f, e) => SpecMapError::Transformation(f@, e@),
        }
    }
}

/// The diagnostic text of a mapping failure.
pub open spec fn spec_map_error_message(e: SpecMapError) -> Seq<char> {
    match e {
        SpecMapError::SourceNotMap => "source is not a map"@,
        SpecMapError::SourceFieldNonExistent(f) => "source field "@ + f + " does not exist"@,
        SpecMapError::DestinationFieldAlreadyPresent(f) => "destination field "@ + f
            + " is already present in the output; maybe there's a duplicate?"@,
        SpecMapError::Transformation(f, te) => "transformation error for destination field "@ + f
            + ": "@ + crate::transform::spec_transform_error_message(te),
    }
}

impl MapError {
    /// The failure, described for an operator.
    pub fn message(&self) -> (r: String)
        ensures
            r@ == spec_map_error_message(self@),
    {
        match self {
            MapError::SourceNotMap => String::from_str("source is not a map"),
            MapError::SourceFieldNonExistent(f) => String::from_str("source field ").concat(
                f.as_str(),
            ).concat(" does not exist"),
            MapError::DestinationFieldAlreadyPresent(f) => String::from_str(
                "destination field ",
            ).concat(f.as_str()).concat(
                " is already present in the output; maybe there's a duplicate?",
            ),
            MapError::Transformation(f, te) => {
                let m = te.message();
                String::from_str("transformation error for destination field ").concat(
                    f.as_str(),
                ).concat(": ").concat(m.as_str())
            },
        }
    }
}

/// Abstract model of one mapping rule.
pub struct SpecMappingItem {
    pub enabled: bool,
    pub source_field: Seq<char>,
    pub transformation: Transformation,
    pub destination_field: Seq<char>,
}

/// One rule of a mapping: take `source_field` from the input, run it through
/// `transformation`, and store the result under `destination_field`.
#[derive(Debug)]
pub struct MappingItem {
    pub enabled: bool,
    pub source_field: String,
    pub transformation: Transformation,
    pub destination_field: String,
}

impl View for MappingItem {
    type V = SpecMappingItem;

    open spec fn view(&self) -> SpecMappingItem {
        SpecMappingItem {
            enabled: self.enabled,
            source_field: self.source_field@,
            transformation: self.transformation,
            destination_field: self.destination_field@,
        }
    }
}

impl Default for MappingItem {
    /// A fresh rule: enabled, with empty field names and no transformation.
    fn default() -> (r: MappingItem)
        ensures
            r.enabled == true,
            r.source_field@ == Seq::<char>::empty(),
            r.transformation == Transformation::NoTransform,
            r.destination_field@ == Seq::<char>::empty(),
    {
        MappingItem {
            enabled: true,
            source_field: String::new(),
            transformation: Transformation::NoTransform,
            destination_field: String::new(),
        }
    }
}

/// A transformation failure caused specifically by a null source value: the
/// one kind of failure that `exclude_incomplete_data` may skip.
pub open spec fn spec_is_soft_failure(e: SpecTransformError) -> bool {
    e == SpecTransformError::UnexpectedSourceType(SpecValue::Null)
}

/// The effect of one rule on the destination being built.
pub open spec fn spec_item_step(
    item: SpecMappingItem,
    src: Seq<(Seq<char>, SpecValue)>,
    dst: Seq<(Seq<char>, SpecValue)>,
) -> Result<Seq<(Seq<char>, SpecValue)>, SpecMapError> {
    if !item.enabled {
        Ok(dst)
    } else {
        match spec_entries_get(src, item.source_field) {
            None => Err(SpecMapError::SourceFieldNonExistent(item.source_field)),
            Some(v) => match spec_transform(item.transformation, v) {
                Err(e) => Err(SpecMapError::Transformation(item.destination_field, e)),
                Ok(t) => {
                    if spec_entries_contains_key(dst, item.destination_field) {
                        Err(SpecMapError::DestinationFieldAlreadyPresent(item.destination_field))
                    } else {
                        Ok(spec_entries_insert(dst, item.destination_field, t))
                    }
                },
            },
        }
    }
}

/// The rules applied in order to an initial destination: the first hard
/// failure aborts; a soft failure is skipped when `exclude` is set.
pub open spec fn spec_map_items(
    items: Seq<SpecMappingItem>,
    src: Seq<(Seq<char>, SpecValue)>,
    dst: Seq<(Seq<char>, SpecValue)>,
    exclude: bool,
) -> Result<Seq<(Seq<char>, SpecValue)>, SpecMapError>
    decreases items.len(),
{
    if items.len() == 0 {
        Ok(dst)
    } else {
        match spec_item_step(items[0], src, dst) {
            Ok(d2) => spec_map_items(items.drop_first(), src, d2, exclude),
            Err(e) => {
                if exclude && (e matches SpecMapError::Transformation(_, te) && spec_is_soft_failure(
                    te,
                )) {
                    spec_map_items(items.drop_first(), src, dst, exclude)
                } else {
                    Err(e)
                }
            },
        }
    }
}

/// What mapping one source value yields: a keyed record input is folded
/// through the rules; anything else is `SourceNotMap`.
pub open spec fn spec_map(
    items: Seq<SpecMappingItem>,
    source: SpecValue,
    exclude: bool,
) -> Result<SpecValue, SpecMapError> {
    match source {
        SpecValue::Obj(src) => match spec_map_items(
            items,
            src,
            Seq::<(Seq<char>, SpecValue)>::empty(),
            exclude,
        ) {
            Ok(d) => Ok(SpecValue::Obj(d)),
            Err(e) => Err(e),
        },
        _ => Err(SpecMapError::SourceNotMap),
    }
}

impl MappingItem {
    /// Applies this rule to `source`, adding its output to `destination`,
    /// exactly as `spec_item_step` describes; on failure the destination is
    /// left as it was.
    pub fn map(&self, source: &Record, destination: &mut Record) -> (r: Result<(), MapError>)
        ensures
            match r {
                Ok(_) => spec_item_step(self@, source@, old(destination)@) == Ok::<
                    _,
                    SpecMapError,
                >(final(destination)@),
                Err(e) => spec_item_step(self@, source@, old(destination)@) == Err::<
                    Seq<(Seq<char>, SpecValue)>,
                    _,
                >(e@) && final(destination)@ == old(destination)@,
            },
    {
        if self.enabled {
            let sv = match source.get(self.source_field.as_str()) {
                Some(v) => v,
                None => {
                    return Err(MapError::SourceFieldNonExistent(self.source_field.clone()));
                },
            };
            let t = match self.transformation.transform(sv) {
                Ok(t) => t,
                Err(e) => {
                    return Err(MapError::Transformation(self.destination_field.clone(), e));
                },
            };
            if destination.contains_key(self.destination_field.as_str()) {
                Err(MapError::DestinationFieldAlreadyPresent(self.destination_field.clone()))
            } else {
                let _prev = destination.insert(self.destination_field.clone(), t);
                Ok(())
            }
        } else {
            Ok(())
        }
    }
}

/// An ordered sequence of mapping rules: one input record in, one output
/// record out.
#[derive(Debug)]
pub struct Mapping {
    pub items: Vec<MappingItem>,
}

impl Default for Mapping {
    /// A mapping with no rules yet.
    fn default() -> (r: Mapping)
        ensures
            r@ == Seq::<SpecMappingItem>::empty(),
    {
        let r = Mapping { items: Vec::new() };
        proof {
            assert(r@ =~= Seq::<SpecMappingItem>::empty());
        }
        r
    }
}

impl View for Mapping {
    type V = Seq<SpecMappingItem>;

    open spec fn view(&self) -> Seq<SpecMappingItem> {
        self.items@.map_values(|it: MappingItem| it@)
    }
}

impl Mapping {
    /// Maps one source record through every rule in order, exactly as
    /// `spec_map` describes.
    pub fn map(&self, source: &Value, exclude_incomplete_data: bool) -> (r: Result<
        Value,
        MapError,
    >)
        ensures
            match r {
                Ok(v) => spec_map(self@, source@, exclude_incomplete_data) == Ok::<
                    _,
                    SpecMapError,
                >(v@),
                Err(e) => spec_map(self@, source@, exclude_incomplete_data) == Err::<
                    SpecValue,
                    _,
                >(e@),
            },
    {
        let src: &Record = match source {
            Value::Object(r) => r,
            _ => {
                return Err(MapError::SourceNotMap);
            },
        };
        let mut destination = Record::new();
        let n = self.items.len();
        let ghost items = self@;
        let mut i: usize = 0;
        proof {
            assert(items.skip(0) =~= items);
        }
        while i < n
            invariant
                items == self@,
                n == self.items@.len(),
                items.len() == n,
                i <= n,
                source@ == SpecValue::Obj(src@),
                spec_map_items(items, src@, Seq::<(Seq<char>, SpecValue)>::empty(),
                    exclude_incomplete_data) == spec_map_items(
                    items.skip(i as int),
                    src@,
                    destination@,
                    exclude_incomplete_data,
                ),
            decreases n - i,
        {
            proof {
                assert(items.skip(i as int)[0] == items[i as int]);
                assert(items.skip(i as int).drop_first() =~= items.skip(i as int + 1));
                assert(items[i as int] == self.items@[i as int]@);
            }
            match self.items[i].map(src, &mut destination) {
                Ok(_) => {},
                Err(MapError::Transformation(df, TransformationError::UnexpectedSourceType(
                    Value::Null,
                ))) => {
                    if !exclude_incomplete_data {
                        return Err(MapError::Transformation(
                            df,
                            TransformationError::UnexpectedSourceType(Value::Null),
                        ));
                    }
                },
                Err(e) => {
                    proof {
                        assert(!(e@ matches SpecMapError::Transformation(_, te)
                            && spec_is_soft_failure(te)));
                    }
                    return Err(e);
                },
            }
            i += 1;
        }
        proof {
            assert(items.skip(n as int) =~= Seq::<SpecMappingItem>::empty());
        }
        Ok(Value::Object(destination))
    }
}

// ----- laws of the mapping engine -----

/// The outcome of one rule against the source, before destination
/// bookkeeping: the missing-field or transformation error it would raise,
/// or the value it would store.
pub open spec fn spec_rule_result(
    item: SpecMappingItem,
    src: Seq<(Seq<char>, SpecValue)>,
) -> Result<SpecValue, SpecMapError> {
    match spec_entries_get(src, item.source_field) {
        None => Err(SpecMapError::SourceFieldNonExistent(item.source_field)),
        Some(v) => match spec_transform(item.transformation, v) {
            Err(e) => Err(SpecMapError::Transformation(item.destination_field, e)),
            Ok(t) => Ok(t),
        },
    }
}

/// Whether a rule fails softly: its source value is null and the
/// transformation rejects null.
pub open spec fn spec_rule_soft_fails(
    item: SpecMappingItem,
    src: Seq<(Seq<char>, SpecValue)>,
) -> bool {
    match spec_entries_get(src, item.source_field) {
        Some(v) => spec_transform(item.transformation, v) == Err::<SpecValue, _>(
            SpecTransformError::UnexpectedSourceType(SpecValue::Null),
        ),
        None => false,
    }
}

proof fn lemma_map_items_populates(
    items: Seq<SpecMappingItem>,
    src: Seq<(Seq<char>, SpecValue)>,
    dst: Seq<(Seq<char>, SpecValue)>,
    exclude: bool,
)
    requires
        forall|i: int|
            0 <= i < items.len() && items[i].enabled ==> (#[trigger] spec_rule_result(
                items[i],
                src,
            )) is Ok || (exclude && spec_rule_soft_fails(items[i], src)),
        forall|i: int, j: int|
            0 <= i < j < items.len() && items[i].enabled && items[j].enabled
                && spec_rule_result(items[i], src) is Ok && spec_rule_result(items[j], src) is Ok
                ==> items[i].destination_field != items[j].destination_field,
        forall|i: int|
            0 <= i < items.len() && items[i].enabled && (#[trigger] spec_rule_result(
                items[i],
                src,
            )) is Ok ==> !spec_entries_contains_key(dst, items[i].destination_field),
    ensures
        spec_map_items(items, src, dst, exclude) is Ok,
        forall|k: Seq<char>|
            spec_entries_contains_key(spec_map_items(items, src, dst, exclude)->Ok_0, k)
                <==> spec_entries_contains_key(dst, k) || exists|i: int|
                0 <= i < items.len() && items[i].enabled && spec_rule_result(items[i], src) is Ok
                    && items[i].destination_field == k,
        forall|i: int|
            0 <= i < items.len() && items[i].enabled && (#[trigger] spec_rule_result(
                items[i],
                src,
            )) is Ok ==> spec_entries_get(
                spec_map_items(items, src, dst, exclude)->Ok_0,
                items[i].destination_field,
            ) == Some(spec_rule_result(items[i], src)->Ok_0),
        forall|k: Seq<char>|
            (forall|i: int|
                0 <= i < items.len() && items[i].enabled && spec_rule_result(items[i], src) is Ok
                    ==> items[i].destination_field != k) ==> #[trigger] spec_entries_get(
                spec_map_items(items, src, dst, exclude)->Ok_0,
                k,
            ) == spec_entries_get(dst, k),
    decreases items.len(),
{
    if items.len() > 0 {
        let item = items[0];
        let rest = items.drop_first();
        let result = spec_map_items(items, src, dst, exclude)->Ok_0;
        assert(forall|i: int| 0 <= i < rest.len() ==> rest[i] == items[i + 1]);
        if !item.enabled {
            lemma_map_items_populates(rest, src, dst, exclude);
            assert forall|i: int|
                0 <= i < items.len() && items[i].enabled && (#[trigger] spec_rule_result(
                    items[i],
                    src,
                )) is Ok implies spec_entries_get(result, items[i].destination_field) == Some(
                spec_rule_result(items[i], src)->Ok_0,
            ) by {
                assert(i >= 1 && rest[i - 1] == items[i]);
            }
            assert forall|k: Seq<char>|
                (forall|i: int|
                    0 <= i < items.len() && items[i].enabled && spec_rule_result(items[i], src)
                        is Ok ==> items[i].destination_field != k) implies #[trigger]
            spec_entries_get(result, k) == spec_entries_get(dst, k) by {
                assert(forall|i: int|
                    0 <= i < rest.len() && rest[i].enabled && spec_rule_result(rest[i], src) is Ok
                        ==> rest[i].destination_field != k);
            }
            assert forall|k: Seq<char>|
                spec_entries_contains_key(spec_map_items(items, src, dst, exclude)->Ok_0, k)
                    <==> spec_entries_contains_key(dst, k) || exists|i: int|
                    0 <= i < items.len() && items[i].enabled && spec_rule_result(items[i], src)
                        is Ok && items[i].destination_field == k by {
                if exists|i: int|
                    0 <= i < items.len() && items[i].enabled && spec_rule_result(items[i], src)
                        is Ok && items[i].destination_field == k {
                    let i = choose|i: int|
                        0 <= i < items.len() && items[i].enabled && spec_rule_result(items[i], src)
                            is Ok && items[i].destination_field == k;
                    assert(i >= 1 && rest[i - 1] == items[i]);
                }
            }
        } else if spec_rule_result(item, src) is Ok {
            let t = spec_rule_result(item, src)->Ok_0;
            let dst2 = spec_entries_insert(dst, item.destination_field, t);
            assert(spec_item_step(item, src, dst) == Ok::<_, SpecMapError>(dst2));
            assert forall|i: int|
                0 <= i < rest.len() && rest[i].enabled && (#[trigger] spec_rule_result(
                    rest[i],
                    src,
                )) is Ok implies !spec_entries_contains_key(dst2, rest[i].destination_field) by {
                assert(rest[i] == items[i + 1]);
                assert(items[i + 1].destination_field != item.destination_field);
                crate::value::lemma_insert_contains(
                    dst,
                    item.destination_field,
                    t,
                    rest[i].destination_field,
                );
            }
            lemma_map_items_populates(rest, src, dst2, exclude);
            assert forall|i: int|
                0 <= i < items.len() && items[i].enabled && (#[trigger] spec_rule_result(
                    items[i],
                    src,
                )) is Ok implies spec_entries_get(result, items[i].destination_field) == Some(
                spec_rule_result(items[i], src)->Ok_0,
            ) by {
                if i == 0 {
                    assert(forall|j: int|
                        0 <= j < rest.len() && rest[j].enabled && spec_rule_result(rest[j], src)
                            is Ok ==> rest[j].destination_field != item.destination_field);
                    assert(spec_entries_get(result, item.destination_field) == spec_entries_get(
                        dst2,
                        item.destination_field,
                    ));
                    crate::value::lemma_insert_get_same(dst, item.destination_field, t);
                } else {
                    assert(rest[i - 1] == items[i]);
                }
            }
            assert forall|k: Seq<char>|
                (forall|i: int|
                    0 <= i < items.len() && items[i].enabled && spec_rule_result(items[i], src)
                        is Ok ==> items[i].destination_field != k) implies #[trigger]
            spec_entries_get(result, k) == spec_entries_get(dst, k) by {
                assert(forall|i: int|
                    0 <= i < rest.len() && rest[i].enabled && spec_rule_result(rest[i], src) is Ok
                        ==> rest[i].destination_field != k);
                assert(item.destination_field != k);
                assert(spec_entries_get(result, k) == spec_entries_get(dst2, k));
                crate::value::lemma_insert_get_other(dst, item.destination_field, t, k);
            }
            assert forall|k: Seq<char>|
                spec_entries_contains_key(spec_map_items(items, src, dst, exclude)->Ok_0, k)
                    <==> spec_entries_contains_key(dst, k) || exists|i: int|
                    0 <= i < items.len() && items[i].enabled && spec_rule_result(items[i], src)
                        is Ok && items[i].destination_field == k by {
                crate::value::lemma_insert_contains(dst, item.destination_field, t, k);
                if spec_entries_contains_key(dst2, k) && !spec_entries_contains_key(dst, k) {
                    assert(k == item.destination_field);
                    assert(0 <= 0 < items.len() && items[0].enabled && spec_rule_result(
                        items[0],
                        src,
                    ) is Ok && items[0].destination_field == k);
                }
                if exists|i: int|
                    0 <= i < items.len() && items[i].enabled && spec_rule_result(items[i], src)
                        is Ok && items[i].destination_field == k {
                    let i = choose|i: int|
                        0 <= i < items.len() && items[i].enabled && spec_rule_result(items[i], src)
                            is Ok && items[i].destination_field == k;
                    if i == 0 {
                        assert(spec_entries_contains_key(dst2, k));
                    } else {
                        assert(rest[i - 1] == items[i]);
                    }
                }
            }
        } else {
            assert(exclude && spec_rule_soft_fails(item, src));
            lemma_map_items_populates(rest, src, dst, exclude);
            assert forall|i: int|
                0 <= i < items.len() && items[i].enabled && (#[trigger] spec_rule_result(
                    items[i],
                    src,
                )) is Ok implies spec_entries_get(result, items[i].destination_field) == Some(
                spec_rule_result(items[i], src)->Ok_0,
            ) by {
                assert(i >= 1 && rest[i - 1] == items[i]);
            }
            assert forall|k: Seq<char>|
                (forall|i: int|
                    0 <= i < items.len() && items[i].enabled && spec_rule_result(items[i], src)
                        is Ok ==> items[i].destination_field != k) implies #[trigger]
            spec_entries_get(result, k) == spec_entries_get(dst, k) by {
                assert(forall|i: int|
                    0 <= i < rest.len() && rest[i].enabled && spec_rule_result(rest[i], src) is Ok
                        ==> rest[i].destination_field != k);
            }
            assert forall|k: Seq<char>|
                spec_entries_contains_key(spec_map_items(items, src, dst, exclude)->Ok_0, k)
                    <==> spec_entries_contains_key(dst, k) || exists|i: int|
                    0 <= i < items.len() && items[i].enabled && spec_rule_result(items[i], src)
                        is Ok && items[i].destination_field == k by {
                if exists|i: int|
                    0 <= i < items.len() && items[i].enabled && spec_rule_result(items[i], src)
                        is Ok && items[i].destination_field == k {
                    let i = choose|i: int|
                        0 <= i < items.len() && items[i].enabled && spec_rule_result(items[i], src)
                            is Ok && items[i].destination_field == k;
                    assert(i >= 1 && rest[i - 1] == items[i]);
                }
            }
        }
    }
}

/// With every enabled rule's source field present, its transformation
/// succeeding, and no two enabled rules sharing a destination field, mapping
/// succeeds, the output record's keys are exactly the enabled rules'
/// destination fields, and each destination holds its rule's transformed
/// value.
pub proof fn lemma_map_complete_success(
    items: Seq<SpecMappingItem>,
    src: Seq<(Seq<char>, SpecValue)>,
    exclude: bool,
)
    requires
        forall|i: int|
            0 <= i < items.len() && items[i].enabled ==> (#[trigger] spec_rule_result(
                items[i],
                src,
            )) is Ok,
        forall|i: int, j: int|
            0 <= i < j < items.len() && items[i].enabled && items[j].enabled
                ==> items[i].destination_field != items[j].destination_field,
    ensures
        spec_map(items, SpecValue::Obj(src), exclude) is Ok,
        forall|k: Seq<char>|
            spec_entries_contains_key(spec_map(items, SpecValue::Obj(src), exclude)->Ok_0->Obj_0, k)
                <==> exists|i: int|
                0 <= i < items.len() && items[i].enabled && items[i].destination_field == k,
        forall|i: int|
            0 <= i < items.len() && items[i].enabled ==> spec_entries_get(
                spec_map(items, SpecValue::Obj(src), exclude)->Ok_0->Obj_0,
                items[i].destination_field,
            ) == Some((#[trigger] spec_rule_result(items[i], src))->Ok_0),
{
    let empty = Seq::<(Seq<char>, SpecValue)>::empty();
    lemma_map_items_populates(items, src, empty, exclude);
    let d = spec_map_items(items, src, empty, exclude)->Ok_0;
    assert(spec_map(items, SpecValue::Obj(src), exclude)->Ok_0->Obj_0 == d);
    assert forall|k: Seq<char>|
        spec_entries_contains_key(
            spec_map(items, SpecValue::Obj(src), exclude)->Ok_0->Obj_0,
            k,
        ) <==> exists|i: int|
        0 <= i < items.len() && items[i].enabled && items[i].destination_field == k by {
        assert(!spec_entries_contains_key(empty, k));
        assert(spec_entries_contains_key(d, k) <==> spec_entries_contains_key(empty, k) || exists|
            i: int,
        |
            0 <= i < items.len() && items[i].enabled && spec_rule_result(items[i], src) is Ok
                && items[i].destination_field == k);
        if exists|i: int|
            0 <= i < items.len() && items[i].enabled && items[i].destination_field == k {
            let i = choose|i: int|
                0 <= i < items.len() && items[i].enabled && items[i].destination_field == k;
            assert(spec_rule_result(items[i], src) is Ok);
        }
    }
}

/// With exclusion on, a rule whose source value is null is skipped rather
/// than aborting: mapping succeeds, exactly the enabled rules whose
/// transformation succeeds populate the output, and each populated
/// destination holds its rule's transformed value.
pub proof fn lemma_map_soft_null_skipped(
    items: Seq<SpecMappingItem>,
    src: Seq<(Seq<char>, SpecValue)>,
)
    requires
        forall|i: int|
            0 <= i < items.len() && items[i].enabled ==> (#[trigger] spec_rule_result(
                items[i],
                src,
            )) is Ok || spec_rule_soft_fails(items[i], src),
        forall|i: int, j: int|
            0 <= i < j < items.len() && items[i].enabled && items[j].enabled
                && spec_rule_result(items[i], src) is Ok && spec_rule_result(items[j], src) is Ok
                ==> items[i].destination_field != items[j].destination_field,
    ensures
        spec_map(items, SpecValue::Obj(src), true) is Ok,
        forall|k: Seq<char>|
            spec_entries_contains_key(spec_map(items, SpecValue::Obj(src), true)->Ok_0->Obj_0, k)
                <==> exists|i: int|
                0 <= i < items.len() && items[i].enabled && spec_rule_result(items[i], src) is Ok
                    && items[i].destination_field == k,
        forall|i: int|
            0 <= i < items.len() && items[i].enabled && (#[trigger] spec_rule_result(
                items[i],
                src,
            )) is Ok ==> spec_entries_get(
                spec_map(items, SpecValue::Obj(src), true)->Ok_0->Obj_0,
                items[i].destination_field,
            ) == Some(spec_rule_result(items[i], src)->Ok_0),
{
    let empty = Seq::<(Seq<char>, SpecValue)>::empty();
    lemma_map_items_populates(items, src, empty, true);
    let d = spec_map_items(items, src, empty, true)->Ok_0;
    assert(spec_map(items, SpecValue::Obj(src), true)->Ok_0->Obj_0 == d);
    assert forall|k: Seq<char>|
        spec_entries_contains_key(spec_map(items, SpecValue::Obj(src), true)->Ok_0->Obj_0, k)
            <==> exists|i: int|
            0 <= i < items.len() && items[i].enabled && spec_rule_result(items[i], src) is Ok
                && items[i].destination_field == k by {
        assert(!spec_entries_contains_key(empty, k));
        assert(spec_entries_contains_key(d, k) <==> spec_entries_contains_key(empty, k) || exists|
            i: int,
        |
            0 <= i < items.len() && items[i].enabled && spec_rule_result(items[i], src) is Ok
                && items[i].destination_field == k);
    }
}

/// A successful mapping means every enabled rule found its source field and
/// either transformed it successfully or was softly skipped.
pub proof fn lemma_map_items_ok_requires(
    items: Seq<SpecMappingItem>,
    src: Seq<(Seq<char>, SpecValue)>,
    dst: Seq<(Seq<char>, SpecValue)>,
    exclude: bool,
)
    requires
        spec_map_items(items, src, dst, exclude) is Ok,
    ensures
        forall|i: int|
            0 <= i < items.len() && items[i].enabled ==> (#[trigger] spec_rule_result(
                items[i],
                src,
            )) is Ok || (exclude && spec_rule_soft_fails(items[i], src)),
    decreases items.len(),
{
    if items.len() > 0 {
        let item = items[0];
        let rest = items.drop_first();
        match spec_item_step(item, src, dst) {
            Ok(d2) => {
                lemma_map_items_ok_requires(rest, src, d2, exclude);
            },
            Err(_) => {
                lemma_map_items_ok_requires(rest, src, dst, exclude);
            },
        }
        assert forall|i: int|
            0 <= i < items.len() && items[i].enabled implies (#[trigger] spec_rule_result(
                items[i],
                src,
            )) is Ok || (exclude && spec_rule_soft_fails(items[i], src)) by {
            if i > 0 {
                assert(rest[i - 1] == items[i]);
            }
        }
    }
}

/// With exclusion off, one enabled rule whose source value is null makes
/// the whole mapping fail.
pub proof fn lemma_map_null_aborts(
    items: Seq<SpecMappingItem>,
    src: Seq<(Seq<char>, SpecValue)>,
    m: int,
)
    requires
        0 <= m < items.len(),
        items[m].enabled,
        spec_rule_soft_fails(items[m], src),
    ensures
        spec_map(items, SpecValue::Obj(src), false) is Err,
{
    if spec_map(items, SpecValue::Obj(src), false) is Ok {
        let empty = Seq::<(Seq<char>, SpecValue)>::empty();
        assert(spec_map_items(items, src, empty, false) is Ok);
        lemma_map_items_ok_requires(items, src, empty, false);
        assert(spec_rule_result(items[m], src) is Ok);
        assert(false);
    }
}

proof fn lemma_map_items_collision(
    items: Seq<SpecMappingItem>,
    src: Seq<(Seq<char>, SpecValue)>,
    dst: Seq<(Seq<char>, SpecValue)>,
    exclude: bool,
    m: int,
)
    requires
        forall|i: int|
            0 <= i < items.len() && items[i].enabled ==> (#[trigger] spec_rule_result(
                items[i],
                src,
            )) is Ok,
        0 <= m < items.len(),
        items[m].enabled,
        spec_entries_contains_key(dst, items[m].destination_field) || exists|l: int|
            0 <= l < m && items[l].enabled && items[l].destination_field
                == items[m].destination_field,
    ensures
        spec_map_items(items, src, dst, exclude) matches Err(
            SpecMapError::DestinationFieldAlreadyPresent(_),
        ),
    decreases items.len(),
{
    let item = items[0];
    let rest = items.drop_first();
    assert(forall|i: int| 0 <= i < rest.len() ==> rest[i] == items[i + 1]);
    assert forall|i: int| 0 <= i < rest.len() && rest[i].enabled implies (
    #[trigger] spec_rule_result(rest[i], src)) is Ok by {
        assert(rest[i] == items[i + 1]);
        assert(spec_rule_result(items[i + 1], src) is Ok);
    }
    if !item.enabled {
        assert(m >= 1);
        assert(rest[m - 1] == items[m]);
        if !spec_entries_contains_key(dst, items[m].destination_field) {
            let l = choose|l: int|
                0 <= l < m && items[l].enabled && items[l].destination_field
                    == items[m].destination_field;
            assert(l >= 1);
            assert(rest[l - 1] == items[l]);
            assert(0 <= l - 1 < m - 1 && rest[l - 1].enabled && rest[l - 1].destination_field
                == rest[m - 1].destination_field);
        }
        lemma_map_items_collision(rest, src, dst, exclude, m - 1);
    } else {
        let t = spec_rule_result(item, src)->Ok_0;
        if spec_entries_contains_key(dst, item.destination_field) {
            assert(spec_map_items(items, src, dst, exclude) matches Err(
                SpecMapError::DestinationFieldAlreadyPresent(_),
            ));
        } else {
            let dst2 = spec_entries_insert(dst, item.destination_field, t);
            assert(spec_item_step(item, src, dst) == Ok::<_, SpecMapError>(dst2));
            assert(m >= 1);
            assert(rest[m - 1] == items[m]);
            crate::value::lemma_insert_contains(
                dst,
                item.destination_field,
                t,
                items[m].destination_field,
            );
            if spec_entries_contains_key(dst, items[m].destination_field) {
                assert(spec_entries_contains_key(dst2, rest[m - 1].destination_field));
            } else {
                let l = choose|l: int|
                    0 <= l < m && items[l].enabled && items[l].destination_field
                        == items[m].destination_field;
                if l == 0 {
                    assert(items[m].destination_field == item.destination_field);
                    assert(spec_entries_contains_key(dst2, rest[m - 1].destination_field));
                } else {
                    assert(rest[l - 1] == items[l]);
                    assert(0 <= l - 1 < m - 1 && rest[l - 1].enabled && rest[l
                        - 1].destination_field == rest[m - 1].destination_field);
                }
            }
            lemma_map_items_collision(rest, src, dst2, exclude, m - 1);
        }
    }
}

/// Two enabled rules that share a destination field always abort the
/// mapping with a destination collision, whatever positions the two rules
/// hold, provided every enabled rule's own transformation succeeds.
pub proof fn lemma_map_duplicate_destination(
    items: Seq<SpecMappingItem>,
    src: Seq<(Seq<char>, SpecValue)>,
    exclude: bool,
    i: int,
    j: int,
)
    requires
        forall|i2: int|
            0 <= i2 < items.len() && items[i2].enabled ==> (#[trigger] spec_rule_result(
                items[i2],
                src,
            )) is Ok,
        0 <= i < j < items.len(),
        items[i].enabled,
        items[j].enabled,
        items[i].destination_field == items[j].destination_field,
    ensures
        spec_map(items, SpecValue::Obj(src), exclude) matches Err(
            SpecMapError::DestinationFieldAlreadyPresent(_),
        ),
{
    lemma_map_items_collision(
        items,
        src,
        Seq::<(Seq<char>, SpecValue)>::empty(),
        exclude,
        j,
    );
}

} // verus!
