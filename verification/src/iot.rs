//! IoT Core: the records of things, thing groups, policies, certificates
//! and topic rules.
use vstd::prelude::*;
use crate::error::VaporError;
use crate::time::Timestamp;

verus! {

/// A key/value attribute of a thing.
#[derive(Debug, PartialEq, Eq)]
pub struct IotTagPair {
    pub key: String,
    pub value: String,
}

/// An IoT thing.
#[derive(Debug)]
pub struct IotThingInfo {
    pub thing_name: Option<String>,
    pub thing_arn: Option<String>,
    pub thing_type_name: Option<String>,
    pub attributes: Vec<IotTagPair>,
    pub version: Option<i64>,
}

/// An IoT thing group, with the id and status that describing it gave.
#[derive(Debug)]
pub struct IotThingGroupInfo {
    pub group_name: Option<String>,
    pub group_arn: Option<String>,
    pub group_id: Option<String>,
    pub status: Option<String>,
}

/// An IoT policy.
#[derive(Debug)]
pub struct IotPolicyInfo {
    pub policy_name: Option<String>,
    pub policy_arn: Option<String>,
}

/// An IoT certificate.
#[derive(Debug)]
pub struct IotCertificateInfo {
    pub certificate_id: Option<String>,
    pub certificate_arn: Option<String>,
    pub status: Option<String>,
    pub creation_date: Option<Timestamp>,
}

/// An IoT topic rule.
#[derive(Debug)]
pub struct IotTopicRuleInfo {
    pub rule_name: Option<String>,
    pub topic_pattern: Option<String>,
    pub created_at: Option<Timestamp>,
    pub rule_disabled: Option<bool>,
    pub rule_arn: Option<String>,
}

/// A thing's attributes as key/value pairs, in the order given.
pub fn thing_attributes(attributes: Vec<(String, String)>) -> (r: Vec<IotTagPair>)
    ensures
        r@.map_values(|p: IotTagPair| (p.key, p.value)) == attributes@,
{
    let mut out: Vec<IotTagPair> = Vec::new();
    let mut i: usize = 0;
    while i < attributes.len()
        invariant
            i <= attributes@.len(),
            out@.map_values(|p: IotTagPair| (p.key, p.value)) == attributes@.take(i as int),
        decreases attributes@.len() - i,
    {
        let ghost before = out@;
        let key = attributes[i].0.clone();
        let value = attributes[i].1.clone();
        out.push(IotTagPair { key, value });
        assert(out@.map_values(|p: IotTagPair| (p.key, p.value)) =~= before.map_values(
            |p: IotTagPair| (p.key, p.value),
        ).push(attributes@[i as int]));
        assert(attributes@.take(i + 1) =~= attributes@.take(i as int).push(attributes@[i as int]));
        i += 1;
    }
    assert(attributes@.take(attributes@.len() as int) =~= attributes@);
    out
}

/// The name to describe for a listed thing group: only groups with a name
/// are described.
pub fn thing_group_to_describe(group_name: &Option<String>) -> (r: Option<String>)
    ensures
        r == *group_name,
{
    match group_name {
        Some(n) => Some(n.clone()),
        None => None,
    }
}

/// A thing group's record from its listing entry and the outcome of
/// describing it (`None` when it was not described): id and status come
/// from a successful describe call only; a failed call leaves them absent.
pub fn thing_group_info(
    group_name: Option<String>,
    group_arn: Option<String>,
    described: Option<Result<(Option<String>, Option<String>), VaporError>>,
) -> (r: IotThingGroupInfo)
    ensures
        r.group_name == group_name,
        r.group_arn == group_arn,
        r.group_id == (match described {
            Some(Ok(d)) => d.0,
            _ => None,
        }),
        r.status == (match described {
            Some(Ok(d)) => d.1,
            _ => None,
        }),
{
    let (group_id, status) = match described {
        Some(Ok(d)) => d,
        _ => (None, None),
    };
    IotThingGroupInfo { group_name, group_arn, group_id, status }
}

/// The id and status a describe outcome gives a thing group: those of a
/// successful call, none otherwise.
pub open spec fn described_fields(
    described: Option<Result<(Option<String>, Option<String>), VaporError>>,
) -> (Option<String>, Option<String>) {
    match described {
        Some(Ok(d)) => d,
        _ => (None, None),
    }
}

/// A describe outcome fills a record with the id and status of a
/// successful call, and with nothing for a failed call or none at all.
pub proof fn law_described_fields(
    id: Option<String>,
    status: Option<String>,
    e: VaporError,
)
    ensures
        described_fields(Some(Ok((id, status)))) == (id, status),
        described_fields(Some(Err(e))) == (None::<String>, None::<String>),
        described_fields(None) == (None::<String>, None::<String>),
{
}

/// The names of the named groups among `groups`, in order.
pub open spec fn named_names(groups: Seq<(Option<String>, Option<String>)>) -> Seq<String>
    decreases groups.len(),
{
    if groups.len() == 0 {
        Seq::empty()
    } else {
        let before = named_names(groups.drop_last());
        match groups.last().0 {
            Some(n) => before.push(n),
            None => before,
        }
    }
}

/// The outcomes that are present among `outcomes`, in order.
pub open spec fn present_outcomes<R>(outcomes: Seq<Option<R>>) -> Seq<R>
    decreases outcomes.len(),
{
    if outcomes.len() == 0 {
        Seq::empty()
    } else {
        let before = present_outcomes(outcomes.drop_last());
        match outcomes.last() {
            Some(o) => before.push(o),
            None => before,
        }
    }
}

/// The named groups of two runs of groups, one after the other, are those
/// of the first run, then those of the second; a single group counts
/// exactly when it has a name.
pub proof fn law_named_names(
    a: Seq<(Option<String>, Option<String>)>,
    b: Seq<(Option<String>, Option<String>)>,
    g: (Option<String>, Option<String>),
)
    ensures
        named_names(a + b) == named_names(a) + named_names(b),
        named_names(seq![g]) == (match g.0 {
            Some(n) => seq![n],
            None => Seq::<String>::empty(),
        }),
    decreases b.len(),
{
    if b.len() == 0 {
        assert(a + b =~= a);
        assert(named_names(a) + named_names(b) =~= named_names(a));
    } else {
        law_named_names(a, b.drop_last(), g);
        assert((a + b).drop_last() =~= a + b.drop_last());
        assert((a + b).last() == b.last());
        assert(named_names(a + b) =~= named_names(a) + named_names(b));
    }
    assert(seq![g].drop_last() =~= Seq::<(Option<String>, Option<String>)>::empty());
    assert(named_names(Seq::<(Option<String>, Option<String>)>::empty()).len() == 0);
    if let Some(n) = g.0 {
        assert(Seq::<String>::empty().push(n) =~= seq![n]);
    }
}

/// The outcomes present in two runs, one after the other, are those of the
/// first run, then those of the second; a single outcome counts exactly
/// when present.
pub proof fn law_present_outcomes<R>(a: Seq<Option<R>>, b: Seq<Option<R>>, o: Option<R>)
    ensures
        present_outcomes(a + b) == present_outcomes(a) + present_outcomes(b),
        present_outcomes(seq![o]) == (match o {
            Some(x) => seq![x],
            None => Seq::<R>::empty(),
        }),
    decreases b.len(),
{
    if b.len() == 0 {
        assert(a + b =~= a);
        assert(present_outcomes(a) + present_outcomes(b) =~= present_outcomes(a));
    } else {
        law_present_outcomes(a, b.drop_last(), o);
        assert((a + b).drop_last() =~= a + b.drop_last());
        assert((a + b).last() == b.last());
        assert(present_outcomes(a + b) =~= present_outcomes(a) + present_outcomes(b));
    }
    assert(seq![o].drop_last() =~= Seq::<Option<R>>::empty());
    assert(present_outcomes(Seq::<Option<R>>::empty()).len() == 0);
    if let Some(x) = o {
        assert(Seq::<R>::empty().push(x) =~= seq![x]);
    }
}

/// The outcome of one `DescribeThingGroup` call: the group's id and status.
pub type DescribeOutcome = Result<(Option<String>, Option<String>), VaporError>;

fn copy_text(text: &Option<String>) -> (r: Option<String>)
    ensures
        r == *text,
{
    match text {
        Some(t) => Some(t.clone()),
        None => None,
    }
}

/// The describe fan-out over listed thing groups: the groups are settled in
/// listing order; a group without a name gets its record at once, a named
/// group is described first and its record filled from that call's
/// outcome.
pub struct ThingGroupFanOut {
    groups: Vec<(Option<String>, Option<String>)>,
    next: usize,
    pending: bool,
    records: Vec<IotThingGroupInfo>,
    asked: Ghost<Seq<String>>,
    outcomes: Ghost<Seq<Option<DescribeOutcome>>>,
    absorbed: Ghost<Seq<DescribeOutcome>>,
}

impl ThingGroupFanOut {
    /// The listed groups, each a name and an ARN.
    pub closed spec fn groups(&self) -> Seq<(Option<String>, Option<String>)> {
        self.groups@
    }

    /// How many groups have their record.
    pub closed spec fn settled(&self) -> int {
        self.next as int
    }

    /// A describe call has been asked for and its outcome not yet given.
    pub closed spec fn pending(&self) -> bool {
        self.pending
    }

    /// The names asked to be described, in order.
    pub closed spec fn asked(&self) -> Seq<String> {
        self.asked@
    }

    /// For each settled group, the outcome of describing it (none for a
    /// group without a name).
    pub closed spec fn outcomes(&self) -> Seq<Option<DescribeOutcome>> {
        self.outcomes@
    }

    /// The describe outcomes given, in order.
    pub closed spec fn absorbed(&self) -> Seq<DescribeOutcome> {
        self.absorbed@
    }

    /// The records of the settled groups.
    pub closed spec fn records(&self) -> Seq<IotThingGroupInfo> {
        self.records@
    }

    /// Every group has its record.
    pub open spec fn done(&self) -> bool {
        !self.pending() && self.settled() == self.groups().len()
    }

    pub closed spec fn wf(&self) -> bool {
        let g = self.groups@;
        &&& self.next <= g.len()
        &&& self.pending ==> self.next < g.len() && g[self.next as int].0 is Some
        &&& self.records@.len() == self.next
        &&& self.outcomes@.len() == self.next
        &&& forall|i: int|
            0 <= i < self.next ==> {
                &&& (#[trigger] self.records@[i]).group_name == g[i].0
                &&& self.records@[i].group_arn == g[i].1
                &&& (self.records@[i].group_id, self.records@[i].status) == described_fields(
                    self.outcomes@[i],
                )
                &&& (self.outcomes@[i] is None <==> g[i].0 is None)
            }
        &&& present_outcomes(self.outcomes@) == self.absorbed@
        &&& self.asked@ == named_names(g.take(self.next as int)) + (if self.pending {
            seq![g[self.next as int].0->Some_0]
        } else {
            Seq::<String>::empty()
        })
    }

    /// Starts the fan-out over the listed `groups`.
    pub fn new(groups: Vec<(Option<String>, Option<String>)>) -> (f: Self)
        ensures
            f.wf(),
            f.groups() == groups@,
            f.settled() == 0,
            !f.pending(),
            f.asked() == Seq::<String>::empty(),
            f.absorbed() == Seq::<DescribeOutcome>::empty(),
    {
        let f = ThingGroupFanOut {
            groups,
            next: 0,
            pending: false,
            records: Vec::new(),
            asked: Ghost(Seq::empty()),
            outcomes: Ghost(Seq::empty()),
            absorbed: Ghost(Seq::empty()),
        };
        assert(f.groups@.take(0) =~= Seq::<(Option<String>, Option<String>)>::empty());
        f
    }

    /// Settles the groups without a name that come next, and names the next
    /// group to describe, if any is left: its name is added to those asked.
    pub fn next_describe(&mut self) -> (name: Option<String>)
        requires
            old(self).wf(),
            !old(self).pending(),
        ensures
            final(self).wf(),
            final(self).groups() == old(self).groups(),
            final(self).absorbed() == old(self).absorbed(),
            old(self).settled() <= final(self).settled(),
            forall|i: int|
                old(self).settled() <= i < final(self).settled() ==> (
                #[trigger] final(self).groups()[i]).0 is None,
            name is None ==> final(self).done() && final(self).asked() == old(self).asked(),
            name is Some ==> final(self).pending() && name == final(self).groups()[final(self).settled()].0
                && final(self).asked() == old(self).asked().push(name->Some_0),
    {
        let ghost start = self.next as int;
        while self.next < self.groups.len() && self.groups[self.next].0.is_none()
            invariant
                self.wf(),
                !self.pending,
                self.groups@ == old(self).groups@,
                self.absorbed@ == old(self).absorbed@,
                self.asked@ == old(self).asked@,
                start <= self.next,
                forall|i: int| start <= i < self.next ==> (#[trigger] self.groups@[i]).0 is None,
            decreases self.groups@.len() - self.next,
        {
            let k = self.next;
            let arn = copy_text(&self.groups[k].1);
            let ghost g = self.groups@;
            let ghost old_outcomes = self.outcomes@;
            self.records.push(thing_group_info(None, arn, None));
            self.outcomes = Ghost(old_outcomes.push(None));
            self.next = k + 1;
            proof {
                assert(self.outcomes@.drop_last() =~= old_outcomes);
                assert(g.take(k + 1).drop_last() =~= g.take(k as int));
                assert(self.asked@ =~= named_names(g.take(self.next as int)));
            }
        }
        if self.next < self.groups.len() {
            let name = thing_group_to_describe(&self.groups[self.next].0);
            let ghost old_asked = self.asked@;
            self.pending = true;
            self.asked = Ghost(old_asked.push(name->Some_0));
            name
        } else {
            None
        }
    }

    /// Settles the group being described with the outcome of its call.
    pub fn absorb(&mut self, outcome: DescribeOutcome)
        requires
            old(self).wf(),
            old(self).pending(),
        ensures
            final(self).wf(),
            !final(self).pending(),
            final(self).groups() == old(self).groups(),
            final(self).settled() == old(self).settled() + 1,
            final(self).asked() == old(self).asked(),
            final(self).absorbed() == old(self).absorbed().push(outcome),
    {
        let k = self.next;
        let n: usize = self.groups.len();
        assert(k < n);
        let ghost g = self.groups@;
        let ghost o = outcome;
        let ghost old_outcomes = self.outcomes@;
        let ghost old_absorbed = self.absorbed@;
        let name = copy_text(&self.groups[k].0);
        let arn = copy_text(&self.groups[k].1);
        self.records.push(thing_group_info(name, arn, Some(outcome)));
        self.outcomes = Ghost(old_outcomes.push(Some(o)));
        self.absorbed = Ghost(old_absorbed.push(o));
        self.next = k + 1;
        self.pending = false;
        proof {
            assert(self.outcomes@.drop_last() =~= old_outcomes);
            assert(g.take(k + 1).drop_last() =~= g.take(k as int));
            assert(g.take(k + 1).last() == g[k as int]);
            assert(self.asked@ =~= named_names(g.take(k + 1)));
            assert(present_outcomes(self.outcomes@) =~= self.absorbed@);
            assert forall|i: int| 0 <= i < self.next implies {
                &&& (#[trigger] self.records@[i]).group_name == g[i].0
                &&& self.records@[i].group_arn == g[i].1
                &&& (self.records@[i].group_id, self.records@[i].status) == described_fields(
                    self.outcomes@[i],
                )
                &&& (self.outcomes@[i] is None <==> g[i].0 is None)
            } by {
                if i == k {
                } else {
                    assert(self.records@[i] == old(self).records@[i]);
                    assert(self.outcomes@[i] == old_outcomes[i]);
                }
            }
        }
    }

    /// The records, one per listed group in listing order, once every group
    /// is settled: the names asked to be described are those of the named
    /// groups, in order; the outcomes given, in order, are those of the
    /// named groups; and each record holds its group's name and ARN and
    /// the id and status its outcome gives (none without a call or after a
    /// failed one).
    pub fn finish(self) -> (r: Vec<IotThingGroupInfo>)
        requires
            self.wf(),
            self.done(),
        ensures
            self.asked() == named_names(self.groups()),
            self.outcomes().len() == self.groups().len(),
            present_outcomes(self.outcomes()) == self.absorbed(),
            r@ == self.records(),
            r@.len() == self.groups().len(),
            forall|i: int|
                0 <= i < r@.len() ==> {
                    &&& (#[trigger] r@[i]).group_name == self.groups()[i].0
                    &&& r@[i].group_arn == self.groups()[i].1
                    &&& (r@[i].group_id, r@[i].status) == described_fields(self.outcomes()[i])
                    &&& (self.outcomes()[i] is None <==> self.groups()[i].0 is None)
                },
    {
        assert(self.groups@.take(self.next as int) =~= self.groups@);
        self.records
    }
}

/// The whole fan-out, once every group is settled: one describe call was
/// asked for each named group, in listing order, and none for a group
/// without a name; the outcomes given, in order, went to the named groups
/// in order; and each group's record holds its name and ARN and the id and
/// status its outcome gives (none without a call or after a failed one).
pub proof fn law_thing_group_fan_out(f: ThingGroupFanOut)
    requires
        f.wf(),
        f.done(),
    ensures
        f.asked() == named_names(f.groups()),
        f.outcomes().len() == f.groups().len(),
        present_outcomes(f.outcomes()) == f.absorbed(),
        f.records().len() == f.groups().len(),
        forall|i: int|
            0 <= i < f.groups().len() ==> {
                &&& (#[trigger] f.records()[i]).group_name == f.groups()[i].0
                &&& f.records()[i].group_arn == f.groups()[i].1
                &&& (f.records()[i].group_id, f.records()[i].status) == described_fields(
                    f.outcomes()[i],
                )
                &&& (f.outcomes()[i] is None <==> f.groups()[i].0 is None)
            },
{
    assert(f.groups@.take(f.next as int) =~= f.groups@);
}

} // verus!
