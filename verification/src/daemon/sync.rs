//! Keeping the domain map in step with the database.

use vstd::prelude::*;

use crate::dns::handler::LookupOutcome;
use crate::numbers::as_unsigned;
use crate::numbers::decimal_text;
use crate::numbers::law_written_number_reads_back;
use crate::numbers::parse_i32;
use crate::numbers::same_bits;
use crate::numbers::signed_text;
use crate::types::NatEntry;

verus! {

/// Read the domain id out of a notification.
pub fn parse_notification(payload: &str) -> (domain_id: Option<i32>)
    ensures
        match signed_text(payload@) {
            Some(n) => if i32::MIN <= n <= i32::MAX {
                domain_id == Some(n as i32)
            } else {
                domain_id is None
            },
            None => domain_id is None,
        },
{
    parse_i32(payload)
}

/// What the database has for a notified domain.
#[derive(Clone, Copy)]
pub enum NotifiedRow {
    /// No row.
    Missing,
    /// A row whose origin is no address.
    InvalidOrigin,
    /// A row with this origin.
    Origin([u8; 16]),
}

/// What a notification leads to.
#[derive(Clone, Copy)]
pub enum NotificationAction {
    /// Warn that there is no such domain.
    WarnMissing,
    /// End the listener run.
    EndRun,
    /// Put the entry into the domain map. A failure is only warned about.
    Insert { domain_id: u32, entry: NatEntry },
}

/// Decide what a notification leads to.
pub fn on_notification(domain_id: i32, row: NotifiedRow) -> (action: NotificationAction)
    ensures
        match row {
            NotifiedRow::Missing => action is WarnMissing,
            NotifiedRow::InvalidOrigin => action is EndRun,
            NotifiedRow::Origin(origin) => action == (NotificationAction::Insert {
                domain_id: same_bits(domain_id),
                entry: NatEntry { origin_ipv6: origin },
            }),
        },
{
    match row {
        NotifiedRow::Missing => NotificationAction::WarnMissing,
        NotifiedRow::InvalidOrigin => NotificationAction::EndRun,
        NotifiedRow::Origin(origin) => NotificationAction::Insert {
            domain_id: as_unsigned(domain_id),
            entry: NatEntry { origin_ipv6: origin },
        },
    }
}

/// A row of the domains table, as far as the domain map needs it.
#[derive(Clone, Copy)]
pub struct BulkRow {
    pub domain_id: i32,
    /// The origin, if what is stored is an address.
    pub origin: Option<[u8; 16]>,
}

/// What a bulk load does.
pub struct BulkPlan {
    /// The entries to put into the domain map, in order.
    pub inserts: Vec<(u32, NatEntry)>,
    /// The number of domains, or `None` if the rows hold an origin that is no address: the
    /// rows before it are loaded, and then the load fails.
    pub count: Option<usize>,
}

/// The number of rows before the first whose origin is no address.
pub open spec fn valid_rows(rows: Seq<BulkRow>) -> int
    decreases rows.len(),
{
    if rows.len() == 0 {
        0
    } else {
        let before = valid_rows(rows.drop_last());
        if before == rows.len() - 1 && rows.last().origin is Some {
            before + 1
        } else {
            before
        }
    }
}

/// The entry of the domain map that a row with an address stands for.
pub open spec fn entry_of(row: BulkRow) -> (u32, NatEntry) {
    (same_bits(row.domain_id), NatEntry { origin_ipv6: row.origin->0 })
}

/// Every row but those from the first invalid one on is valid.
proof fn lemma_valid_rows(rows: Seq<BulkRow>, n: int)
    requires
        0 <= n <= rows.len(),
        forall|i: int| 0 <= i < n ==> (#[trigger] rows[i]).origin is Some,
        n < rows.len() ==> rows[n].origin is None,
    ensures
        valid_rows(rows) == n,
    decreases rows.len(),
{
    if rows.len() > 0 {
        let shorter = rows.drop_last();
        if n == rows.len() {
            lemma_valid_rows(shorter, n - 1);
        } else {
            lemma_valid_rows(shorter, n);
        }
    }
}

/// Plan a bulk load of all domains.
pub fn bulk_load_from_db(rows: &Vec<BulkRow>) -> (plan: BulkPlan)
    ensures
        plan.inserts@ == Seq::new(valid_rows(rows@) as nat, |i: int| entry_of(rows@[i])),
        plan.count == if valid_rows(rows@) == rows@.len() {
            Some(rows@.len() as usize)
        } else {
            None::<usize>
        },
{
    let mut inserts: Vec<(u32, NatEntry)> = Vec::new();
    let mut i: usize = 0;
    while i < rows.len()
        invariant
            i <= rows.len(),
            inserts.len() == i,
            forall|j: int| 0 <= j < i ==> (#[trigger] rows@[j]).origin is Some,
            forall|j: int| 0 <= j < i ==> #[trigger] inserts@[j] == entry_of(rows@[j]),
        decreases rows.len() - i,
    {
        match rows[i].origin {
            Some(origin) => {
                inserts.push(
                    (as_unsigned(rows[i].domain_id), NatEntry { origin_ipv6: origin }),
                );
            },
            None => {
                proof {
                    lemma_valid_rows(rows@, i as int);
                }
                assert(inserts@ =~= Seq::new(
                    valid_rows(rows@) as nat,
                    |j: int| entry_of(rows@[j]),
                ));
                return BulkPlan { inserts, count: None };
            },
        }
        i = i + 1;
    }
    proof {
        lemma_valid_rows(rows@, i as int);
    }
    assert(inserts@ =~= Seq::new(valid_rows(rows@) as nat, |j: int| entry_of(rows@[j])));
    BulkPlan { inserts, count: Some(rows.len()) }
}

/// What the re-resolution of a domain leads to.
#[derive(Clone, Copy)]
pub enum ResolveAction {
    /// Nothing.
    Keep,
    /// Warn that the lookup failed.
    Warn,
    /// Store the new origin in the database, and then put the entry into the domain map.
    Update { domain_id: u32, entry: NatEntry },
}

/// Decide what the re-resolution of a domain leads to: an update if there is a record and
/// the text of its address differs from the stored one. Only the first record counts.
///
/// `found_text` is the address of the first record as text.
pub fn on_resolved(
    domain_id: i32,
    stored_text: &String,
    outcome: &LookupOutcome,
    found_text: &String,
) -> (action: ResolveAction)
    ensures
        match outcome {
            LookupOutcome::Records(addrs) => if addrs@.len() > 0 && found_text@ != stored_text@ {
                action == (ResolveAction::Update {
                    domain_id: same_bits(domain_id),
                    entry: NatEntry { origin_ipv6: addrs@[0] },
                })
            } else {
                action is Keep
            },
            LookupOutcome::NoRecordsFound => action is Warn,
            LookupOutcome::Failed => action is Warn,
        },
{
    match outcome {
        LookupOutcome::Records(addrs) => {
            if addrs.len() == 0 || *found_text == *stored_text {
                ResolveAction::Keep
            } else {
                ResolveAction::Update {
                    domain_id: as_unsigned(domain_id),
                    entry: NatEntry { origin_ipv6: addrs[0] },
                }
            }
        },
        LookupOutcome::NoRecordsFound => ResolveAction::Warn,
        LookupOutcome::Failed => ResolveAction::Warn,
    }
}

// ---------------------------------------------------------------------------
// Passes over all domains
// ---------------------------------------------------------------------------

/// How many seconds lie between two re-resolutions of all domains.
pub const RESOLVE_INTERVAL_SECS: u64 = 60;

/// What happened to one domain of a pass.
#[derive(Clone, Copy, PartialEq, Eq, Structural, Debug)]
pub enum ResolveEvent {
    /// There was nothing to update.
    Kept,
    /// The lookup failed, which was warned about.
    LookupFailed,
    /// The new origin was stored in the database.
    DatabaseWritten,
    /// The new origin could not be stored in the database.
    DatabaseFailed,
    /// The new origin was put into the domain map.
    MapWritten,
    /// The new origin could not be put into the domain map.
    MapFailed,
}

/// Why a pass ends before all domains were looked at.
#[derive(Clone, Copy, PartialEq, Eq, Structural, Debug)]
pub enum PassError {
    Database,
    DomainMap,
}

/// How a pass goes on.
#[derive(Clone, Copy, PartialEq, Eq, Structural, Debug)]
pub enum PassStep {
    /// Put the new origin into the domain map.
    WriteMap,
    /// Go on with the next domain.
    NextDomain,
    /// End the pass. The next one starts when the interval is over.
    EndPass(PassError),
}

/// How a pass goes on after an event: the map is written after the database, a failed write
/// ends the pass, and a failed lookup does not.
pub open spec fn pass_step(event: ResolveEvent) -> PassStep {
    match event {
        ResolveEvent::Kept => PassStep::NextDomain,
        ResolveEvent::LookupFailed => PassStep::NextDomain,
        ResolveEvent::DatabaseWritten => PassStep::WriteMap,
        ResolveEvent::DatabaseFailed => PassStep::EndPass(PassError::Database),
        ResolveEvent::MapWritten => PassStep::NextDomain,
        ResolveEvent::MapFailed => PassStep::EndPass(PassError::DomainMap),
    }
}

/// Decide how a pass goes on.
pub fn resolve_all(event: ResolveEvent) -> (step: PassStep)
    ensures
        step == pass_step(event),
{
    match event {
        ResolveEvent::Kept => PassStep::NextDomain,
        ResolveEvent::LookupFailed => PassStep::NextDomain,
        ResolveEvent::DatabaseWritten => PassStep::WriteMap,
        ResolveEvent::DatabaseFailed => PassStep::EndPass(PassError::Database),
        ResolveEvent::MapWritten => PassStep::NextDomain,
        ResolveEvent::MapFailed => PassStep::EndPass(PassError::DomainMap),
    }
}

/// How many domains a pass looks at, given the last event of each domain: it goes on until
/// a domain ends it.
pub open spec fn domains_reached(last_events: Seq<ResolveEvent>) -> int
    decreases last_events.len(),
{
    if last_events.len() == 0 {
        0
    } else if pass_step(last_events[0]) is EndPass {
        1
    } else {
        1 + domains_reached(last_events.subrange(1, last_events.len() as int))
    }
}

/// A pass looks at every domain unless a write fails, and then at the domains up to and with
/// the first whose write failed.
pub proof fn law_only_failed_writes_end_a_pass(last_events: Seq<ResolveEvent>, n: int)
    requires
        0 <= n <= last_events.len(),
        forall|i: int|
            0 <= i < n ==> #[trigger] last_events[i] != ResolveEvent::DatabaseFailed
                && last_events[i] != ResolveEvent::MapFailed,
        n < last_events.len() ==> last_events[n] == ResolveEvent::DatabaseFailed || last_events[n]
            == ResolveEvent::MapFailed,
    ensures
        domains_reached(last_events) == if n < last_events.len() {
            n + 1
        } else {
            n
        },
    decreases last_events.len(),
{
    if last_events.len() > 0 && n > 0 {
        let rest = last_events.subrange(1, last_events.len() as int);
        assert(forall|i: int| 0 <= i < n - 1 ==> #[trigger] rest[i] == last_events[i + 1]);
        law_only_failed_writes_end_a_pass(rest, n - 1);
    }
}

/// A bulk load puts in the rows up to the first whose origin is no address, all rows if there
/// is none, each under its own id and with its own origin.
pub proof fn law_load_stops_at_first_bad_row(rows: Seq<BulkRow>, n: int, i: int)
    requires
        0 <= i < n <= rows.len(),
        forall|j: int| 0 <= j < n ==> (#[trigger] rows[j]).origin is Some,
        n < rows.len() ==> rows[n].origin is None,
    ensures
        valid_rows(rows) == n,
        (entry_of(rows[i]).0 - rows[i].domain_id) % 0x1_0000_0000 == 0,
        Some(entry_of(rows[i]).1.origin_ipv6) == rows[i].origin,
{
    lemma_valid_rows(rows, n);
}

/// The map is written just after the database was. A failed write ends the pass and says
/// which it was. Everything else goes on with the next domain.
pub proof fn law_map_follows_database(event: ResolveEvent)
    ensures
        pass_step(event) is WriteMap <==> event is DatabaseWritten,
        pass_step(event) == PassStep::EndPass(PassError::Database) <==> event is DatabaseFailed,
        pass_step(event) == PassStep::EndPass(PassError::DomainMap) <==> event is MapFailed,
        pass_step(event) is NextDomain <==> event is Kept || event is LookupFailed || event
            is MapWritten,
{
}

/// What is put into the map for a notification, and for a new origin, is the domain's own id and
/// the very origin. A missing row is warned about, one that says no address ends the run. Of
/// several records the first counts, and only if its text is a new one; a failed lookup is
/// warned about.
pub proof fn law_updates_by_fields(
    domain_id: i32,
    row: NotifiedRow,
    action: NotificationAction,
    stored: &String,
    outcome: &LookupOutcome,
    found: &String,
    resolved: ResolveAction,
)
    requires
        call_ensures(on_notification, (domain_id, row), action),
        call_ensures(on_resolved, (domain_id, stored, outcome, found), resolved),
    ensures
        row is Missing ==> action is WarnMissing,
        row is InvalidOrigin ==> action is EndRun,
        row matches NotifiedRow::Origin(origin) ==> action is Insert && (action->Insert_domain_id
            - domain_id) % 0x1_0000_0000 == 0 && action->Insert_entry.origin_ipv6 == origin,
        outcome is NoRecordsFound || outcome is Failed ==> resolved is Warn,
        outcome matches LookupOutcome::Records(addrs) ==> if addrs@.len() > 0 && found@
            != stored@ {
            &&& resolved is Update
            &&& (resolved->Update_domain_id - domain_id) % 0x1_0000_0000 == 0
            &&& resolved->Update_entry.origin_ipv6 == addrs@[0]
        } else {
            resolved is Keep
        },
{
}

/// A bulk load puts in one entry for each row before the first bad one, in order, and counts
/// the rows if there is none.
pub proof fn law_bulk_load_row_by_row(rows: &Vec<BulkRow>, plan: BulkPlan, n: int)
    requires
        call_ensures(bulk_load_from_db, (rows,), plan),
        0 <= n <= rows@.len(),
        forall|j: int| 0 <= j < n ==> (#[trigger] rows@[j]).origin is Some,
        n < rows@.len() ==> rows@[n].origin is None,
    ensures
        plan.inserts@.len() == n,
        forall|j: int|
            0 <= j < n ==> ((#[trigger] plan.inserts@[j]).0 - rows@[j].domain_id) % 0x1_0000_0000
                == 0 && Some(plan.inserts@[j].1.origin_ipv6) == rows@[j].origin,
        plan.count is Some <==> n == rows@.len(),
        plan.count is Some ==> plan.count->0 == n,
{
    lemma_valid_rows(rows@, n);
    assert(rows.len() == rows@.len());
    assert forall|j: int| 0 <= j < n implies ((#[trigger] plan.inserts@[j]).0
        - rows@[j].domain_id) % 0x1_0000_0000 == 0 && Some(plan.inserts@[j].1.origin_ipv6)
        == rows@[j].origin by {
        law_load_stops_at_first_bad_row(rows@, n, j);
    }
}

/// A notification that writes an id is read as that id, negative or not.
pub proof fn law_notification_says_its_id(payload: &str, n: nat, domain_id: Option<i32>)
    requires
        call_ensures(parse_notification, (payload,), domain_id),
    ensures
        payload@ == decimal_text(n) && n <= 0x7fff_ffff ==> domain_id == Some(n as i32),
        payload@ == decimal_text(n) && n > 0x7fff_ffff ==> domain_id is None,
        payload@ == seq!['-'] + decimal_text(n) && n <= 0x8000_0000 ==> domain_id == Some(
            (-n) as i32,
        ),
{
    law_written_number_reads_back(n);
}

} // verus!
