//! Who does what in an experiment.
use crate::config::ParticipantConfig;
use crate::text;
use vstd::prelude::*;
use vstd::string::*;

verus! {

/// A part that a label gives a participant.
#[derive(Clone, Copy, Debug, PartialEq, Eq, Structural)]
pub enum Role {
    /// Holds the blobs that several getters get.
    Source,
    Getter,
    /// The one getter of several putters.
    LeadGetter,
    Putter,
    Sender,
    Receiver,
}

impl Role {
    /// Whether a label names the role. Channel roles are named in any letter case.
    pub open spec fn named_by(self, label: Seq<char>) -> bool {
        match self {
            Role::Source => label == "source"@,
            Role::Getter => label == "getter"@,
            Role::LeadGetter => label == "getter"@ || label == "orchestrator"@,
            Role::Putter => label == "putter"@ || label == "holder"@,
            Role::Sender => text::normal_spec(label) == "sender"@ || text::normal_spec(label)
                == "orchestrator"@,
            Role::Receiver => text::normal_spec(label) == "receiver"@,
        }
    }

    fn is_named_by(self, label: &str) -> (r: bool)
        ensures
            r == self.named_by(label@),
    {
        match self {
            Role::Source => text::same(label, "source"),
            Role::Getter => text::same(label, "getter"),
            Role::LeadGetter => text::same(label, "getter") || text::same(label, "orchestrator"),
            Role::Putter => text::same(label, "putter") || text::same(label, "holder"),
            Role::Sender => {
                let word = text::normal(label);
                text::same(word.as_str(), "sender") || text::same(word.as_str(), "orchestrator")
            },
            Role::Receiver => {
                let word = text::normal(label);
                text::same(word.as_str(), "receiver")
            },
        }
    }
}

pub open spec fn plays(p: ParticipantConfig, role: Role) -> bool {
    p.label matches Some(l) && role.named_by(l@)
}

fn does_play(p: &ParticipantConfig, role: Role) -> (r: bool)
    ensures
        r == plays(*p, role),
{
    match &p.label {
        Some(label) => role.is_named_by(label.as_str()),
        None => false,
    }
}

/// The ids of the participants in a role.
pub open spec fn ids_in_role(s: Seq<ParticipantConfig>, role: Role) -> Seq<Seq<char>>
    decreases s.len(),
{
    if s.len() == 0 {
        Seq::empty()
    } else if plays(s.last(), role) {
        ids_in_role(s.drop_last(), role).push(s.last().instance_id@)
    } else {
        ids_in_role(s.drop_last(), role)
    }
}

/// The ids of the participants other than `id`.
pub open spec fn other_ids(s: Seq<ParticipantConfig>, id: Seq<char>) -> Seq<Seq<char>>
    decreases s.len(),
{
    if s.len() == 0 {
        Seq::empty()
    } else if s.last().instance_id@ != id {
        other_ids(s.drop_last(), id).push(s.last().instance_id@)
    } else {
        other_ids(s.drop_last(), id)
    }
}

fn push_id(out: &mut Vec<String>, id: &String)
    ensures
        text::views(final(out)@) == text::views(old(out)@).push(id@),
{
    out.push(id.clone());
    assert(text::views(out@) =~= text::views(old(out)@).push(id@));
}

fn role_ids(participants: &Vec<ParticipantConfig>, role: Role) -> (r: Vec<String>)
    ensures
        text::views(r@) == ids_in_role(participants@, role),
{
    let mut out: Vec<String> = Vec::new();
    let mut i: usize = 0;
    assert(participants@.take(0) =~= Seq::<ParticipantConfig>::empty());
    assert(text::views(out@) =~= Seq::<Seq<char>>::empty());
    while i < participants.len()
        invariant
            i <= participants@.len(),
            text::views(out@) == ids_in_role(participants@.take(i as int), role),
        decreases participants.len() - i,
    {
        assert(participants@.take(i + 1).drop_last() =~= participants@.take(i as int));
        if does_play(&participants[i], role) {
            push_id(&mut out, &participants[i].instance_id);
        }
        i = i + 1;
    }
    assert(participants@.take(i as int) =~= participants@);
    out
}

fn ids_except(participants: &Vec<ParticipantConfig>, id: &str) -> (r: Vec<String>)
    ensures
        text::views(r@) == other_ids(participants@, id@),
{
    let mut out: Vec<String> = Vec::new();
    let mut i: usize = 0;
    assert(participants@.take(0) =~= Seq::<ParticipantConfig>::empty());
    assert(text::views(out@) =~= Seq::<Seq<char>>::empty());
    while i < participants.len()
        invariant
            i <= participants@.len(),
            text::views(out@) == other_ids(participants@.take(i as int), id@),
        decreases participants.len() - i,
    {
        assert(participants@.take(i + 1).drop_last() =~= participants@.take(i as int));
        if !text::same(participants[i].instance_id.as_str(), id) {
            push_id(&mut out, &participants[i].instance_id);
        }
        i = i + 1;
    }
    assert(participants@.take(i as int) =~= participants@);
    out
}

/// The participant that leads: the first in the role, else the first of all.
pub open spec fn lead_spec(s: Seq<ParticipantConfig>, role: Role) -> Option<Seq<char>> {
    if ids_in_role(s, role).len() > 0 {
        Some(ids_in_role(s, role)[0])
    } else if s.len() > 0 {
        Some(s[0].instance_id@)
    } else {
        None
    }
}

pub fn lead_id(participants: &Vec<ParticipantConfig>, role: Role) -> (r: Option<String>)
    ensures
        text::option_view(r) == lead_spec(participants@, role),
{
    let ids = role_ids(participants, role);
    assert(ids@.len() == text::views(ids@).len());
    if ids.len() > 0 {
        assert(text::views(ids@)[0] == ids@[0]@);
        Some(ids[0].clone())
    } else if participants.len() > 0 {
        Some(participants[0].instance_id.clone())
    } else {
        None
    }
}

/// The participants that follow: those in the role, or all but the leader where none is.
pub open spec fn followers_spec(s: Seq<ParticipantConfig>, role: Role, lead: Seq<char>) -> Seq<
    Seq<char>,
> {
    if ids_in_role(s, role).len() > 0 {
        ids_in_role(s, role)
    } else {
        other_ids(s, lead)
    }
}

pub fn follower_ids(participants: &Vec<ParticipantConfig>, role: Role, lead: &str) -> (r: Vec<
    String,
>)
    ensures
        text::views(r@) == followers_spec(participants@, role, lead@),
{
    let ids = role_ids(participants, role);
    assert(ids@.len() == text::views(ids@).len());
    if ids.len() > 0 {
        ids
    } else {
        ids_except(participants, lead)
    }
}

/// Where no label says who follows, the leader does not follow itself, and everyone else does.
pub proof fn lemma_others_follow(s: Seq<ParticipantConfig>, lead: Seq<char>)
    ensures
        !other_ids(s, lead).contains(lead),
        forall|i: int|
            0 <= i < s.len() && (#[trigger] s[i]).instance_id@ != lead ==> other_ids(
                s,
                lead,
            ).contains(s[i].instance_id@),
    decreases s.len(),
{
    if s.len() > 0 {
        let init = s.drop_last();
        lemma_others_follow(init, lead);
        let all = other_ids(s, lead);
        let before = other_ids(init, lead);
        assert forall|i: int|
            0 <= i < s.len() && (#[trigger] s[i]).instance_id@ != lead implies all.contains(
            s[i].instance_id@,
        ) by {
            if i < s.len() - 1 {
                assert(init[i] == s[i]);
                let k = choose|k: int| 0 <= k < before.len() && before[k] == s[i].instance_id@;
                assert(all[k] == s[i].instance_id@);
            } else {
                assert(all[all.len() - 1] == s[i].instance_id@);
            }
        }
    }
}

/// The words that name a role.
pub proof fn lemma_words_for_roles(label: Seq<char>)
    ensures
        Role::Source.named_by(label) <==> label == "source"@,
        Role::Getter.named_by(label) <==> label == "getter"@,
        Role::LeadGetter.named_by(label) <==> label == "getter"@ || label == "orchestrator"@,
        Role::Putter.named_by(label) <==> label == "putter"@ || label == "holder"@,
        Role::Sender.named_by(label) <==> text::normal_spec(label) == "sender"@ || text::normal_spec(
            label,
        ) == "orchestrator"@,
        Role::Receiver.named_by(label) <==> text::normal_spec(label) == "receiver"@,
{
}

/// Those in a role, and those other than one, are listed in the order of the participants, each with
/// its own id and none left out.
pub proof fn lemma_participants_are_listed(
    a: Seq<ParticipantConfig>,
    b: Seq<ParticipantConfig>,
    p: ParticipantConfig,
    role: Role,
    id: Seq<char>,
)
    ensures
        ids_in_role(a + b, role) == ids_in_role(a, role) + ids_in_role(b, role),
        other_ids(a + b, id) == other_ids(a, id) + other_ids(b, id),
        ids_in_role(seq![p], role) == (if p.label is Some && role.named_by(p.label->0@) {
            seq![p.instance_id@]
        } else {
            Seq::empty()
        }),
        other_ids(seq![p], id) == (if p.instance_id@ == id {
            Seq::empty()
        } else {
            seq![p.instance_id@]
        }),
    decreases b.len(),
{
    let none = Seq::<ParticipantConfig>::empty();
    assert(seq![p].drop_last() =~= none);
    assert(ids_in_role(none, role) =~= Seq::<Seq<char>>::empty());
    assert(other_ids(none, id) =~= Seq::<Seq<char>>::empty());
    assert(plays(p, role) ==> ids_in_role(seq![p], role) =~= seq![p.instance_id@]);
    assert(p.instance_id@ != id ==> other_ids(seq![p], id) =~= seq![p.instance_id@]);
    if b.len() == 0 {
        assert(a + b =~= a);
        assert(ids_in_role(a, role) + ids_in_role(b, role) =~= ids_in_role(a, role));
        assert(other_ids(a, id) + other_ids(b, id) =~= other_ids(a, id));
    } else {
        lemma_participants_are_listed(a, b.drop_last(), p, role, id);
        assert((a + b).drop_last() =~= a + b.drop_last());
        assert(ids_in_role(a + b, role) =~= ids_in_role(a, role) + ids_in_role(b, role));
        assert(other_ids(a + b, id) =~= other_ids(a, id) + other_ids(b, id));
    }
}

/// Whether a participant is the first that is in a role.
pub open spec fn is_first_in_role(s: Seq<ParticipantConfig>, role: Role, i: int) -> bool {
    &&& 0 <= i < s.len()
    &&& s[i].label is Some && role.named_by(s[i].label->0@)
    &&& forall|j: int|
        0 <= j < i ==> !((#[trigger] s[j]).label is Some && role.named_by(s[j].label->0@))
}

/// The first participant that is in the role leads. Where none is, the first of all leads, and where
/// there is none at all, nobody does.
pub proof fn lemma_the_first_leads(s: Seq<ParticipantConfig>, role: Role, i: int)
    ensures
        is_first_in_role(s, role, i) ==> lead_spec(s, role) == Some(s[i].instance_id@),
        s.len() > 0 && (forall|j: int|
            0 <= j < s.len() ==> !((#[trigger] s[j]).label is Some && role.named_by(
                s[j].label->0@,
            ))) ==> lead_spec(s, role) == Some(s[0].instance_id@),
        lead_spec(s, role) is None <==> s.len() == 0,
{
    if is_first_in_role(s, role, i) {
        lemma_none_before(s.take(i), role);
        let rest = s.skip(i);
        let tail = s.skip(i + 1);
        assert(s =~= s.take(i) + rest);
        assert(rest =~= seq![s[i]] + tail);
        lemma_participants_are_listed(s.take(i), rest, s[i], role, Seq::empty());
        lemma_participants_are_listed(seq![s[i]], tail, s[i], role, Seq::empty());
        assert(ids_in_role(s, role)[0] == s[i].instance_id@);
    }
    if forall|j: int|
        0 <= j < s.len() ==> !((#[trigger] s[j]).label is Some && role.named_by(s[j].label->0@)) {
        lemma_none_before(s, role);
    }
}

proof fn lemma_none_before(s: Seq<ParticipantConfig>, role: Role)
    requires
        forall|j: int|
            0 <= j < s.len() ==> !((#[trigger] s[j]).label is Some && role.named_by(s[j].label->0@)),
    ensures
        ids_in_role(s, role).len() == 0,
    decreases s.len(),
{
    if s.len() > 0 {
        assert forall|j: int| 0 <= j < s.drop_last().len() implies !((
        #[trigger] s.drop_last()[j]).label is Some && role.named_by(
            s.drop_last()[j].label->0@,
        )) by {
            assert(s.drop_last()[j] == s[j]);
        }
        lemma_none_before(s.drop_last(), role);
        assert(!plays(s[s.len() - 1], role));
    }
}

/// Those in the role follow, and where none is, all but the leader do.
pub proof fn lemma_who_follows(s: Seq<ParticipantConfig>, role: Role, lead: Seq<char>)
    ensures
        ids_in_role(s, role).len() > 0 ==> followers_spec(s, role, lead) == ids_in_role(s, role),
        ids_in_role(s, role).len() == 0 ==> followers_spec(s, role, lead) == other_ids(s, lead),
{
}

} // verus!
