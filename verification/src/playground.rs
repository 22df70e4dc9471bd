use crate::consistency::{fault_text, first_fault, stations};
use crate::dummy::{
    spec_add_device, spec_rounds, spec_send_text_data_from, ManagerView, VirtManager,
};
use crate::rounds::{lemma_add_device, lemma_round, lemma_send_text_data_from};
use vstd::prelude::*;

verus! {

/// A network together with the number of rounds that it has been through.
pub struct Playground {
    pub mgr: VirtManager,
    /// The number of rounds played.
    pub age: u32,
}

/// The finding that a network was not consistent after a round.
#[derive(Debug)]
pub struct Report {
    /// The number of the round.
    pub age: u32,
    /// What was found.
    pub text: String,
}

/// Mathematical value of a [`Report`].
pub struct ReportView {
    pub age: int,
    pub text: Seq<char>,
}

impl View for Report {
    type V = ReportView;

    open spec fn view(&self) -> ReportView {
        ReportView { age: self.age as int, text: self.text@ }
    }
}

/// The values of a list of reports, in order.
pub open spec fn report_views(reports: Seq<Report>) -> Seq<ReportView> {
    Seq::new(reports.len(), |i: int| reports[i]@)
}

/// The reports of `n` rounds of the network `m`, which has been through
/// `age` rounds before: one for each round after which the network is not
/// consistent, with the number of that round and the first fault found.
pub open spec fn round_reports(m: ManagerView, age: int, n: nat) -> Seq<ReportView>
    decreases n,
{
    if n == 0 {
        Seq::empty()
    } else {
        let earlier = round_reports(m, age, (n - 1) as nat);
        let now = spec_rounds(m, n);
        match first_fault(stations(now.devices, now.devices.len() as int)) {
            Some(fault) => earlier.push(ReportView { age: age + n, text: fault_text(fault) }),
            None => earlier,
        }
    }
}

/// Rounds keep a network well-formed and advance every clock by one each.
pub proof fn lemma_rounds(m: ManagerView, n: nat, limit: int)
    requires
        m.well_formed(),
        m.clocks_below(limit),
        1 <= limit,
        limit + n <= u64::MAX + 1,
    ensures
        spec_rounds(m, n).well_formed(),
        spec_rounds(m, n).clocks_below(limit + n),
        spec_rounds(m, n).devices.len() == m.devices.len(),
        spec_rounds(m, n).range == m.range,
    decreases n,
{
    if n > 0 {
        lemma_rounds(m, (n - 1) as nat, limit);
        lemma_round(spec_rounds(m, (n - 1) as nat), limit + n - 1);
    }
}

impl Playground {
    /// An empty network that has been through no round.
    pub fn new() -> (play: Playground)
        ensures
            play.mgr@ == (ManagerView { devices: Seq::empty(), range: 10 }),
            play.age == 0,
    {
        Playground { mgr: VirtManager::new(), age: 0 }
    }

    /// Plays `n` rounds and reports after which of them the network was
    /// not consistent.
    pub fn ticks(&mut self, n: u8) -> (reports: Vec<Report>)
        requires
            old(self).mgr@.well_formed(),
            old(self).mgr@.clocks_below(u64::MAX - n + 1),
            old(self).age + n <= u32::MAX,
        ensures
            final(self).mgr@ == spec_rounds(old(self).mgr@, n as nat),
            final(self).age == old(self).age + n,
            report_views(reports@) == round_reports(old(self).mgr@, old(self).age as int, n as nat),
    {
        let mut reports: Vec<Report> = Vec::new();
        let ghost start = self.mgr@;
        let ghost first_age = self.age as int;
        let mut i: u8 = 0;
        assert(report_views(reports@) =~= round_reports(start, first_age, 0));
        while i < n
            invariant
                i <= n,
                start == old(self).mgr@,
                first_age == old(self).age,
                start.well_formed(),
                start.clocks_below(u64::MAX - n + 1),
                first_age + n <= u32::MAX,
                self.mgr@ == spec_rounds(start, i as nat),
                self.age == first_age + i,
                report_views(reports@) == round_reports(start, first_age, i as nat),
            decreases n - i,
        {
            proof {
                lemma_rounds(start, i as nat, u64::MAX - n + 1);
                crate::rounds::lemma_clocks_below_more(
                    self.mgr@,
                    u64::MAX - n + 1 + i,
                    u64::MAX as int,
                );
            }
            self.mgr.handle_messages();
            self.age = self.age + 1;
            let err = self.mgr.find_inconsitency();
            let ghost before = report_views(reports@);
            match err {
                Some(text) => {
                    let report = Report { age: self.age, text };
                    reports.push(report);
                    assert(report_views(reports@) =~= before.push(report@));
                },
                None => {},
            }
            i = i + 1;
        }
        reports
    }

    /// Adds a device at `(x, y)` and plays ten rounds.
    pub fn add_device(&mut self, x: i32, y: i32) -> (reports: Vec<Report>)
        requires
            old(self).mgr@.well_formed(),
            old(self).mgr@.clocks_below(u64::MAX - 9),
            old(self).age + 10 <= u32::MAX,
        ensures
            final(self).mgr@ == spec_rounds(spec_add_device(old(self).mgr@, (x, y)), 10),
            final(self).age == old(self).age + 10,
            report_views(reports@) == round_reports(
                spec_add_device(old(self).mgr@, (x, y)),
                old(self).age as int,
                10,
            ),
    {
        proof {
            lemma_add_device(self.mgr@, (x, y), u64::MAX - 9);
        }
        self.mgr.add_device((x, y));
        self.ticks(10)
    }

    /// Asks the device closest to `from` to send `text` to the node at `to`
    /// and plays ten rounds.
    pub fn send_text_data(&mut self, from: u32, to: u32, text: String) -> (reports: Vec<Report>)
        requires
            old(self).mgr@.well_formed(),
            old(self).mgr@.clocks_below(u64::MAX - 9),
            old(self).age + 10 <= u32::MAX,
            exists|i: int|
                0 <= i < old(self).mgr@.devices.len() && (#[trigger] old(
                    self,
                ).mgr@.devices[i]).vcp.c_id is Some,
        ensures
            final(self).mgr@ == spec_rounds(
                spec_send_text_data_from(old(self).mgr@, from, to, text@),
                10,
            ),
            final(self).age == old(self).age + 10,
            report_views(reports@) == round_reports(
                spec_send_text_data_from(old(self).mgr@, from, to, text@),
                old(self).age as int,
                10,
            ),
    {
        proof {
            lemma_send_text_data_from(self.mgr@, from, to, text@, u64::MAX - 9);
        }
        self.mgr.send_text_data(from, to, text);
        self.ticks(10)
    }
}

} // verus!
