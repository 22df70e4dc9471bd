use crate::dummy::{DeviceView, VirtManager};
use crate::packet::CordId;
use crate::text::{decimal, decimal_string};
use crate::vcp::{Vcp, VcpView};
use vstd::prelude::*;
use vstd::string::*;

verus! {

/// What the consistency check reads of one engine.
#[derive(Clone, Copy, Debug)]
pub struct Station {
    pub c_id: Option<CordId>,
    pub successor: Option<CordId>,
    pub predecessor: Option<CordId>,
}

/// What the check reads of the engine `v`.
pub open spec fn station_of(v: VcpView) -> Station {
    Station { c_id: v.c_id, successor: v.successor, predecessor: v.predecessor }
}

/// An engine and all the engines below it in one row: the engine itself,
/// then each of its virtual nodes with what is below it.
pub open spec fn engine_stations(v: VcpView) -> Seq<Station>
    decreases v, 1int, 0int,
{
    seq![station_of(v)] + below_stations(v, v.virtual_nodes.len() as int)
}

/// The first `k` virtual nodes of the engine `v`, each with what is below
/// it, in one row.
pub open spec fn below_stations(v: VcpView, k: int) -> Seq<Station>
    decreases v, 0int, k,
{
    if k <= 0 || k > v.virtual_nodes.len() {
        Seq::empty()
    } else {
        below_stations(v, k - 1) + engine_stations(v.virtual_nodes[k - 1])
    }
}

/// The engines of the first `n` devices in one row: each device's own
/// engine, followed by its virtual nodes.
pub open spec fn stations(devices: Seq<DeviceView>, n: int) -> Seq<Station>
    decreases n,
{
    if n <= 0 {
        Seq::empty()
    } else {
        stations(devices, n - 1) + engine_stations(devices[n - 1].vcp)
    }
}

/// Every engine has a position.
pub open spec fn all_placed(row: Seq<Station>) -> bool {
    forall|i: int| 0 <= i < row.len() ==> (#[trigger] row[i]).c_id is Some
}

/// No two engines share a position.
pub open spec fn all_distinct(row: Seq<Station>) -> bool {
    forall|i: int, j: int|
        0 <= i < j < row.len() ==> (#[trigger] row[i]).c_id != (#[trigger] row[j]).c_id
}

/// Some engine stands at `cid`.
pub open spec fn known(row: Seq<Station>, cid: CordId) -> bool {
    exists|j: int| 0 <= j < row.len() && (#[trigger] row[j]).c_id == Some(cid)
}

/// The successor that the engine at index `i` names exists.
pub open spec fn successor_resolves(row: Seq<Station>, i: int) -> bool {
    row[i].successor matches Some(a) ==> known(row, a)
}

/// The predecessor that the engine at index `i` names exists.
pub open spec fn predecessor_resolves(row: Seq<Station>, i: int) -> bool {
    row[i].predecessor matches Some(a) ==> known(row, a)
}

/// Every link that an engine names leads to an engine.
pub open spec fn links_resolve(row: Seq<Station>) -> bool {
    forall|i: int|
        0 <= i < row.len() ==> #[trigger] successor_resolves(row, i) && predecessor_resolves(
            row,
            i,
        )
}

/// How many of the first `n` engines have no successor.
pub open spec fn tails(row: Seq<Station>, n: int) -> nat
    decreases n,
{
    if n <= 0 {
        0
    } else if row[n - 1].successor is None {
        tails(row, n - 1) + 1
    } else {
        tails(row, n - 1)
    }
}

/// How many of the first `n` engines have no predecessor.
pub open spec fn heads(row: Seq<Station>, n: int) -> nat
    decreases n,
{
    if n <= 0 {
        0
    } else if row[n - 1].predecessor is None {
        heads(row, n - 1) + 1
    } else {
        heads(row, n - 1)
    }
}

/// The engines form one chain: each has a position, no position is taken
/// twice, every link leads to an engine, and there is exactly one engine
/// without a successor and exactly one without a predecessor.
pub open spec fn consistent(row: Seq<Station>) -> bool {
    &&& all_placed(row)
    &&& all_distinct(row)
    &&& links_resolve(row)
    &&& tails(row, row.len() as int) == 1
    &&& heads(row, row.len() as int) == 1
}

/// A way in which the engines fail to form one chain.
#[derive(Clone, Copy, Debug)]
pub enum Fault {
    /// An engine has no position.
    Unplaced,
    /// Two engines share a position.
    Duplicate,
    /// The engine at this position names a successor that does not exist.
    NoSuccessor(CordId),
    /// The engine at this position names a predecessor that does not exist.
    NoPredecessor(CordId),
    /// There is not exactly one engine without a successor, or not exactly
    /// one without a predecessor.
    LooseEnds,
}

/// The report on a fault.
pub open spec fn fault_text(fault: Fault) -> Seq<char> {
    match fault {
        Fault::Unplaced => "Some nodes don't have a valid cid"@,
        Fault::Duplicate => "Some cids are not unique"@,
        Fault::NoSuccessor(cid) => decimal(cid as nat) + " successor does not exist"@,
        Fault::NoPredecessor(cid) => decimal(cid as nat) + " predecessor does not exist"@,
        Fault::LooseEnds => "Too many loose ends"@,
    }
}

/// The broken link of the engine at index `i`, its successor first.
pub open spec fn dangling_at(row: Seq<Station>, i: int) -> Option<Fault> {
    if !successor_resolves(row, i) {
        Some(Fault::NoSuccessor(row[i].c_id.unwrap()))
    } else if !predecessor_resolves(row, i) {
        Some(Fault::NoPredecessor(row[i].c_id.unwrap()))
    } else {
        None
    }
}

/// The first broken link among the engines from index `from` on.
pub open spec fn first_dangling(row: Seq<Station>, from: int) -> Option<Fault>
    decreases row.len() - from,
{
    if from < 0 || from >= row.len() {
        None
    } else {
        match dangling_at(row, from) {
            Some(fault) => Some(fault),
            None => first_dangling(row, from + 1),
        }
    }
}

/// The first fault of the engines, in the order in which the conditions of
/// consistency are stated; none if they are consistent.
pub open spec fn first_fault(row: Seq<Station>) -> Option<Fault> {
    if !all_placed(row) {
        Some(Fault::Unplaced)
    } else if !all_distinct(row) {
        Some(Fault::Duplicate)
    } else if first_dangling(row, 0) is Some {
        first_dangling(row, 0)
    } else if tails(row, row.len() as int) != 1 || heads(row, row.len() as int) != 1 {
        Some(Fault::LooseEnds)
    } else {
        None
    }
}

/// No link is broken from `from` on exactly if every link from there on
/// leads to an engine.
pub proof fn lemma_first_dangling(row: Seq<Station>, from: int)
    requires
        0 <= from,
    ensures
        first_dangling(row, from) is None <==> forall|i: int|
            from <= i < row.len() ==> #[trigger] successor_resolves(row, i)
                && predecessor_resolves(row, i),
    decreases row.len() - from,
{
    if from < row.len() {
        lemma_first_dangling(row, from + 1);
        if dangling_at(row, from) is None {
            assert forall|i: int| from <= i < row.len() && (forall|i: int|
                from + 1 <= i < row.len() ==> #[trigger] successor_resolves(row, i)
                    && predecessor_resolves(row, i)) implies #[trigger] successor_resolves(row, i)
                && predecessor_resolves(row, i) by {
                if i == from {
                } else {
                    assert(from + 1 <= i);
                }
            }
        } else {
            assert(!(successor_resolves(row, from) && predecessor_resolves(row, from)));
        }
    }
}

/// The engines are free of faults exactly if they are consistent.
pub proof fn lemma_no_fault_is_consistent(row: Seq<Station>)
    ensures
        first_fault(row) is None <==> consistent(row),
{
    lemma_first_dangling(row, 0);
}

/// In a consistent network no two engines, virtual ones included, stand at
/// the same position, and each of them has one.
pub proof fn lemma_positions_unique(row: Seq<Station>, i: int, j: int)
    requires
        consistent(row),
        0 <= i < row.len(),
        0 <= j < row.len(),
        i != j,
    ensures
        row[i].c_id is Some,
        row[j].c_id is Some,
        row[i].c_id != row[j].c_id,
{
    if i < j {
        assert(row[i].c_id != row[j].c_id);
    } else {
        assert(row[j].c_id != row[i].c_id);
    }
}

impl Fault {
    /// The report on the fault.
    pub fn message(&self) -> (text: String)
        ensures
            text@ == fault_text(*self),
    {
        match self {
            Fault::Unplaced => String::from_str("Some nodes don't have a valid cid"),
            Fault::Duplicate => String::from_str("Some cids are not unique"),
            Fault::NoSuccessor(cid) => {
                let mut text = decimal_string(*cid as u64);
                text.append(" successor does not exist");
                text
            },
            Fault::NoPredecessor(cid) => {
                let mut text = decimal_string(*cid as u64);
                text.append(" predecessor does not exist");
                text
            },
            Fault::LooseEnds => String::from_str("Too many loose ends"),
        }
    }
}

/// Whether some engine of the row stands at `cid`.
pub fn is_known(row: &Vec<Station>, cid: CordId) -> (found: bool)
    ensures
        found == known(row@, cid),
{
    let mut j: usize = 0;
    while j < row.len()
        invariant
            j <= row@.len(),
            forall|t: int| 0 <= t < j ==> (#[trigger] row@[t]).c_id != Some(cid),
        decreases row@.len() - j,
    {
        match row[j].c_id {
            Some(c) => {
                if c == cid {
                    assert(row@[j as int].c_id == Some(cid));
                    return true;
                }
            },
            None => {},
        }
        j = j + 1;
    }
    false
}

/// Whether every engine of the row has a position.
pub fn check_placed(row: &Vec<Station>) -> (ok: bool)
    ensures
        ok == all_placed(row@),
{
    let mut i: usize = 0;
    while i < row.len()
        invariant
            i <= row@.len(),
            forall|t: int| 0 <= t < i ==> (#[trigger] row@[t]).c_id is Some,
        decreases row@.len() - i,
    {
        if row[i].c_id.is_none() {
            assert(row@[i as int].c_id is None);
            return false;
        }
        i = i + 1;
    }
    true
}

/// Whether no two engines of the row share a position.
pub fn check_distinct(row: &Vec<Station>) -> (ok: bool)
    requires
        all_placed(row@),
    ensures
        ok == all_distinct(row@),
{
    let n: usize = row.len();
    let mut j: usize = 0;
    while j < n
        invariant
            j <= n,
            n == row@.len(),
            all_placed(row@),
            forall|a: int, b: int|
                0 <= a < b < j ==> (#[trigger] row@[a]).c_id != (#[trigger] row@[b]).c_id,
        decreases n - j,
    {
        let here: CordId = match row[j].c_id {
            Some(c) => c,
            None => 0,
        };
        let mut i: usize = 0;
        while i < j
            invariant
                i <= j,
                j < n,
                n == row@.len(),
                row@[j as int].c_id == Some(here),
                forall|a: int| 0 <= a < i ==> (#[trigger] row@[a]).c_id != Some(here),
            decreases j - i,
        {
            match row[i].c_id {
                Some(c) => {
                    if c == here {
                        assert(row@[i as int].c_id == row@[j as int].c_id);
                        return false;
                    }
                },
                None => {},
            }
            i = i + 1;
        }
        j = j + 1;
    }
    true
}

/// The first broken link of the row.
pub fn find_dangling(row: &Vec<Station>) -> (found: Option<Fault>)
    requires
        all_placed(row@),
    ensures
        found == first_dangling(row@, 0),
{
    let n: usize = row.len();
    let mut i: usize = 0;
    while i < n
        invariant
            i <= n,
            n == row@.len(),
            all_placed(row@),
            first_dangling(row@, 0) == first_dangling(row@, i as int),
        decreases n - i,
    {
        let here: CordId = match row[i].c_id {
            Some(c) => c,
            None => 0,
        };
        assert(row@[i as int].c_id == Some(here));
        if let Some(a) = row[i].successor {
            if !is_known(row, a) {
                return Some(Fault::NoSuccessor(here));
            }
        }
        if let Some(a) = row[i].predecessor {
            if !is_known(row, a) {
                return Some(Fault::NoPredecessor(here));
            }
        }
        assert(dangling_at(row@, i as int) is None);
        i = i + 1;
    }
    None
}

/// Whether exactly one engine has no successor and exactly one has no
/// predecessor.
pub fn check_ends(row: &Vec<Station>) -> (ok: bool)
    ensures
        ok == (tails(row@, row@.len() as int) == 1 && heads(row@, row@.len() as int) == 1),
{
    let n: usize = row.len();
    let mut without_successor: usize = 0;
    let mut without_predecessor: usize = 0;
    let mut i: usize = 0;
    while i < n
        invariant
            i <= n,
            n == row@.len(),
            without_successor == tails(row@, i as int),
            without_predecessor == heads(row@, i as int),
            without_successor <= i,
            without_predecessor <= i,
        decreases n - i,
    {
        if row[i].successor.is_none() {
            without_successor = without_successor + 1;
        }
        if row[i].predecessor.is_none() {
            without_predecessor = without_predecessor + 1;
        }
        i = i + 1;
    }
    without_successor == 1 && without_predecessor == 1
}

/// The first fault of the row, if it has one.
pub fn find_fault(row: &Vec<Station>) -> (found: Option<Fault>)
    ensures
        found == first_fault(row@),
{
    if !check_placed(row) {
        return Some(Fault::Unplaced);
    }
    if !check_distinct(row) {
        return Some(Fault::Duplicate);
    }
    let dangling = find_dangling(row);
    if dangling.is_some() {
        return dangling;
    }
    if !check_ends(row) {
        return Some(Fault::LooseEnds);
    }
    None
}

impl Vcp {
    /// Adds the engine and all the engines below it to the row.
    pub fn collect_stations(&self, row: &mut Vec<Station>)
        ensures
            final(row)@ == old(row)@ + engine_stations(self@),
        decreases self@,
    {
        let ghost start = row@;
        row.push(Station { c_id: self.c_id, successor: self.successor, predecessor: self.predecessor });
        let ghost base = row@;
        let count: usize = self.virtual_nodes.len();
        let mut k: usize = 0;
        assert(base + below_stations(self@, 0) =~= base);
        while k < count
            invariant
                k <= count,
                count == self.virtual_nodes@.len(),
                count == self@.virtual_nodes.len(),
                row@ == base + below_stations(self@, k as int),
            decreases count - k,
        {
            assert(self.virtual_nodes@[k as int]@ == self@.virtual_nodes[k as int]);
            assert(decreases_to!(self@ => self@.virtual_nodes[k as int]));
            self.virtual_nodes[k].collect_stations(row);
            assert(row@ =~= base + below_stations(self@, k + 1));
            k = k + 1;
        }
        assert(row@ =~= start + engine_stations(self@));
    }
}

impl VirtManager {
    /// The engines of all devices and of their virtual nodes, in one row.
    pub fn engines(&self) -> (row: Vec<Station>)
        ensures
            row@ == stations(self@.devices, self@.devices.len() as int),
    {
        let mut row: Vec<Station> = Vec::new();
        let n: usize = self.devices.len();
        let ghost devs = self@.devices;
        let mut i: usize = 0;
        while i < n
            invariant
                i <= n,
                n == self.devices@.len(),
                devs == self@.devices,
                row@ == stations(devs, i as int),
            decreases n - i,
        {
            let dev = &self.devices[i];
            assert(devs[i as int] == dev@);
            dev.vcp.collect_stations(&mut row);
            i = i + 1;
        }
        row
    }

    /// Checks whether the engines of the network form one chain. Returns
    /// the report on the first fault, or `None` if there is none.
    pub fn find_inconsitency(&self) -> (report: Option<String>)
        ensures
            report is None <==> consistent(stations(self@.devices, self@.devices.len() as int)),
            match report {
                Some(text) => first_fault(stations(self@.devices, self@.devices.len() as int))
                    matches Some(fault) && text@ == fault_text(fault),
                None => first_fault(stations(self@.devices, self@.devices.len() as int)) is None,
            },
    {
        let row = self.engines();
        proof {
            lemma_no_fault_is_consistent(row@);
        }
        match find_fault(&row) {
            Some(fault) => Some(fault.message()),
            None => None,
        }
    }
}

} // verus!
