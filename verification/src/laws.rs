//! The engine's cross-cutting guarantees, stated once over the models the
//! contracts use. Each law composes the exact `ensures` of the functions
//! it names; the single-function guarantees (the `init` readiness, a no-op
//! fan-out, a quiescent switch) live in those functions' own contracts.

use vstd::prelude::*;
use crate::block::all_frozen;
use crate::memory_manager::snapshot_chars;
use crate::serialize::entries_chars;
use crate::serialize::entry_chars;
use crate::serialize::lemma_entries_chars_contains;
use crate::cells::StaticsVar;
use crate::cells::value_within;
use crate::memory_manager::Parameter;
use crate::memory_manager::Statics;
use crate::memory_manager::within_limits;
use crate::values::MemElem;
use crate::values::Value;

verus! {

/// Registering a name makes it present, and every registration contract
/// (`MemoryMode::register_*`, `StreamBlock::new_*`,
/// `ProcessorEngine::register_processor`) succeeds exactly on absent
/// names: a second registration of the same name into the same registry
/// is therefore refused with `AlreadyDefined`, whatever cell it carries.
pub proof fn law_duplicate_registration_refused<V>(
    before: Map<Seq<char>, V>,
    key: Seq<char>,
    cell: V,
)
    ensures
        before.insert(key, cell).dom().contains(key),
{
}

/// Write-once statics: `Statics::set_value` (and `set_value_in`, which
/// also keeps the registered snapshot in step) succeeds exactly while the
/// cell is settable and the value lies within the limits, and a success
/// leaves the cell unsettable; so after the first successful write, every
/// later write fails its success condition and is refused with
/// `InvalidOperation`, leaving the value in place.
pub proof fn law_statics_write_once<T: MemElem>(frozen: Statics<T>, next_value: T)
    requires
        !frozen.is_settable_spec(),
    ensures
        !(frozen.is_settable_spec() && within_limits(frozen.limits_spec(), next_value)),
{
}

/// The same freeze for block-held statics cells: the cell a successful
/// `StaticsVar::set` leaves behind refuses every later write.
pub proof fn law_statics_cell_write_once(cell: StaticsVar, first: Value, later: Value)
    requires
        cell.settable,
        value_within(cell.limits, first),
    ensures
        ({
            let after = StaticsVar {
                value: first,
                settable: false,
                kind: cell.kind,
                limits: cell.limits,
            };
            !(after.settable && value_within(after.limits, later))
        }),
{
}

/// Set-then-get round trip: after `Parameter::set_value(v)`, whose
/// contract stores `v` exactly on in-range writes (returning `Ok`) and
/// keeps the old value on out-of-range ones (returning `OutOfRange`),
/// `get_value` returns `v` or the pre-value correspondingly.
pub proof fn law_parameter_set_get<T: MemElem>(before: Parameter<T>, after: Parameter<T>, v: T)
    requires
        within_limits(before.limits_spec(), v) ==> after.value_spec() == v,
        !within_limits(before.limits_spec(), v) ==> after.value_spec() == before.value_spec(),
    ensures
        after.value_spec() == (if within_limits(before.limits_spec(), v) {
            v
        } else {
            before.value_spec()
        }),
{
}

/// The `init` readiness condition: a statics cell is still settable exactly when the
/// registry is not fully frozen, which is exactly when
/// `StreamBlock::init` answers `InvalidStatics`.
pub proof fn law_init_readiness(statics: Map<Seq<char>, StaticsVar>)
    ensures
        (exists|k: Seq<char>| statics.dom().contains(k) && (#[trigger] statics[k]).settable)
            <==> !all_frozen(statics),
{
}

/// The serialized snapshot carries every registered variable verbatim:
/// for each entry of the statics registry, the text `serialize_all`
/// produces contains that entry's `"name":value` fragment.
pub proof fn law_snapshot_text_contains_statics(
    state_entries: Seq<(Seq<char>, Value)>,
    statics_entries: Seq<(Seq<char>, Value)>,
    parameter_entries: Seq<(Seq<char>, Value)>,
    i: int,
)
    requires
        0 <= i < statics_entries.len(),
    ensures
        exists|off: int|
            0 <= off && off + entry_chars(statics_entries[i].0, statics_entries[i].1).len()
                <= snapshot_chars(state_entries, statics_entries, parameter_entries).len()
                && #[trigger] snapshot_chars(
                state_entries,
                statics_entries,
                parameter_entries,
            ).subrange(
                off,
                off + entry_chars(statics_entries[i].0, statics_entries[i].1).len() as int,
            ) == entry_chars(statics_entries[i].0, statics_entries[i].1),
{
    let fragment = entry_chars(statics_entries[i].0, statics_entries[i].1);
    let text = snapshot_chars(state_entries, statics_entries, parameter_entries);
    lemma_entries_chars_contains(statics_entries, i);
    let inner = choose|off: int|
        0 <= off && off + fragment.len() <= entries_chars(statics_entries).len()
            && #[trigger] entries_chars(statics_entries).subrange(
            off,
            off + fragment.len() as int,
        ) == fragment;
    let shift = "{\"memory_mapped\":{\"state\":{"@.len() + entries_chars(state_entries).len()
        + "},\"statics\":{"@.len();
    assert(text.subrange(shift + inner, shift + inner + fragment.len() as int) =~= entries_chars(
        statics_entries,
    ).subrange(inner, inner + fragment.len() as int));
}

/// The snapshot tracks every write: after `MemoryMode::update_statics`
/// (or `update_state`, `update_parameters`) — and so after the variables'
/// own `set_value_in`, whose contracts perform exactly this insert — the
/// snapshot holds the variable's current value under its qualified name,
/// and `serialize_all` renders exactly that registry.
pub proof fn law_snapshot_tracks_write(
    before: Map<Seq<char>, Value>,
    key: Seq<char>,
    value: Value,
)
    ensures
        before.insert(key, value).dom().contains(key),
        before.insert(key, value)[key] == value,
        forall|k: Seq<char>|
            k != key && before.dom().contains(k) ==> before.insert(key, value)[k]
                == #[trigger] before[k],
{
}

} // verus!
