use vstd::prelude::*;
use crate::ids::UserId;
use crate::protocol::{
    ClientEvent, ServerEvent, SpecClientEvent, SpecServerEvent, opt_text, status_sent,
    status_typing, connection_required, sent_status, typing_status, connection_required_text,
    clone_opt_text,
};

verus! {

/// What a recipient's profile contributes to a send.
#[derive(Clone, Debug, PartialEq, Eq)]
pub struct RecipientProfile {
    pub translation_quota_remaining: i32,
    pub native_language: String,
}

/// One server event addressed to one user's live session.
#[derive(Clone, Debug, PartialEq, Eq)]
pub struct Outbound {
    pub recipient: UserId,
    pub event: ServerEvent,
}

/// The next thing the driver of an exchange must do on its behalf.
#[derive(Debug, PartialEq, Eq)]
pub enum Action {
    /// Ask the connection graph whether `from` and `to` have an accepted connection.
    CheckConnection { from: UserId, to: UserId },
    /// Look up the profile of `user`.
    LoadProfile { user: UserId },
    /// Decrement the translation quota of `user` by one.
    DecrementQuota { user: UserId },
    /// Ask the translation provider to translate `text` into `target_locale`.
    Translate { text: String, target_locale: String },
    /// Durably record that `sender` sent a message to `recipient`.
    RecordReceipt { sender: UserId, recipient: UserId, has_translation: bool },
    /// Push these events through the registry, in order; the exchange is over.
    Emit { events: Vec<Outbound> },
    /// A collaborator failed: nothing more is sent; the exchange is over.
    Abort,
}

/// What the driver learned from carrying out the last action.
#[derive(Debug, PartialEq, Eq)]
pub enum Reply {
    Connected(bool),
    Profile(Option<RecipientProfile>),
    QuotaUpdated,
    Translated(String),
    ReceiptRecorded,
    /// The collaborator call failed.
    Failed,
}

/// Where an exchange stands: which answer it waits for.
#[derive(Debug, PartialEq, Eq)]
pub enum Phase {
    /// Waits for the connection check.
    Authorizing,
    /// Waits for the recipient's profile.
    LoadingProfile,
    /// Waits for the quota decrement; then translates into `target_locale`.
    /// The quota is spent before the translation is asked for, and is not
    /// given back when the translation or the receipt fails afterwards. This
    /// keeps the directory's behaviour as it stands; whether a failed send
    /// should refund its quota is an open question for the product.
    DecrementingQuota { target_locale: String },
    /// Waits for the translation.
    Translating,
    /// Waits for the receipt to be stored; then sends `outgoing`.
    Recording { outgoing: String, translated: bool },
    /// Over: nothing more happens.
    Finished,
}

/// The processing of one inbound client event, from its arrival to the events
/// it sends out.
#[derive(Debug)]
pub struct Exchange {
    /// The sender: the user whose session the event came from.
    pub from: UserId,
    /// The addressee.
    pub to: UserId,
    /// The text as the sender wrote it.
    pub text: String,
    /// The sender's correlation token, echoed back.
    pub client_id: Option<String>,
    pub phase: Phase,
}

/// The mathematical value of a `Phase`.
pub enum SpecPhase {
    Authorizing,
    LoadingProfile,
    DecrementingQuota { target_locale: Seq<char> },
    Translating,
    Recording { outgoing: Seq<char>, translated: bool },
    Finished,
}

/// The mathematical value of an `Exchange`.
pub struct SpecExchange {
    pub from: UserId,
    pub to: UserId,
    pub text: Seq<char>,
    pub client_id: Option<Seq<char>>,
    pub phase: SpecPhase,
}

/// The mathematical value of an `Action`; emitted events are pairs of
/// recipient and event.
pub enum SpecAction {
    CheckConnection { from: UserId, to: UserId },
    LoadProfile { user: UserId },
    DecrementQuota { user: UserId },
    Translate { text: Seq<char>, target_locale: Seq<char> },
    RecordReceipt { sender: UserId, recipient: UserId, has_translation: bool },
    Emit { events: Seq<(UserId, SpecServerEvent)> },
    Abort,
}

/// The mathematical value of a `Reply`.
pub enum SpecReply {
    Connected(bool),
    /// The recipient's remaining quota and native language, if the profile exists.
    Profile(Option<(int, Seq<char>)>),
    QuotaUpdated,
    Translated(Seq<char>),
    ReceiptRecorded,
    Failed,
}

impl View for Outbound {
    type V = (UserId, SpecServerEvent);

    open spec fn view(&self) -> (UserId, SpecServerEvent) {
        (self.recipient, self.event@)
    }
}

impl View for Action {
    type V = SpecAction;

    open spec fn view(&self) -> SpecAction {
        match self {
            Action::CheckConnection { from, to } => SpecAction::CheckConnection { from: *from, to: *to },
            Action::LoadProfile { user } => SpecAction::LoadProfile { user: *user },
            Action::DecrementQuota { user } => SpecAction::DecrementQuota { user: *user },
            Action::Translate { text, target_locale } => SpecAction::Translate {
                text: text@,
                target_locale: target_locale@,
            },
            Action::RecordReceipt { sender, recipient, has_translation } =>
                SpecAction::RecordReceipt {
                sender: *sender,
                recipient: *recipient,
                has_translation: *has_translation,
            },
            Action::Emit { events } => SpecAction::Emit {
                events: events@.map_values(|o: Outbound| o@),
            },
            Action::Abort => SpecAction::Abort,
        }
    }
}

impl View for Reply {
    type V = SpecReply;

    open spec fn view(&self) -> SpecReply {
        match self {
            Reply::Connected(b) => SpecReply::Connected(*b),
            Reply::Profile(p) => SpecReply::Profile(
                match p {
                    Some(p) => Some((p.translation_quota_remaining as int, p.native_language@)),
                    None => None,
                },
            ),
            Reply::QuotaUpdated => SpecReply::QuotaUpdated,
            Reply::Translated(t) => SpecReply::Translated(t@),
            Reply::ReceiptRecorded => SpecReply::ReceiptRecorded,
            Reply::Failed => SpecReply::Failed,
        }
    }
}

impl View for Phase {
    type V = SpecPhase;

    open spec fn view(&self) -> SpecPhase {
        match self {
            Phase::Authorizing => SpecPhase::Authorizing,
            Phase::LoadingProfile => SpecPhase::LoadingProfile,
            Phase::DecrementingQuota { target_locale } => SpecPhase::DecrementingQuota {
                target_locale: target_locale@,
            },
            Phase::Translating => SpecPhase::Translating,
            Phase::Recording { outgoing, translated } => SpecPhase::Recording {
                outgoing: outgoing@,
                translated: *translated,
            },
            Phase::Finished => SpecPhase::Finished,
        }
    }
}

impl View for Exchange {
    type V = SpecExchange;

    open spec fn view(&self) -> SpecExchange {
        SpecExchange {
            from: self.from,
            to: self.to,
            text: self.text@,
            client_id: opt_text(self.client_id),
            phase: self.phase@,
        }
    }
}

/// A send is translated exactly when the recipient has quota left.
pub open spec fn takes_translation(quota: int) -> bool {
    quota > 0
}

/// How an exchange starts for an inbound event from `from`: a message first
/// asks whether the two users are connected; typing is forwarded at once to
/// the addressee, naming the typist, and nothing else happens.
pub open spec fn begin(from: UserId, event: SpecClientEvent) -> (SpecExchange, SpecAction) {
    match event {
        SpecClientEvent::Message { to, text, client_id } => (
            SpecExchange { from, to, text, client_id, phase: SpecPhase::Authorizing },
            SpecAction::CheckConnection { from, to },
        ),
        SpecClientEvent::Typing { to } => (
            SpecExchange {
                from,
                to,
                text: Seq::empty(),
                client_id: None,
                phase: SpecPhase::Finished,
            },
            SpecAction::Emit {
                events: seq![
                    (
                        to,
                        SpecServerEvent::Delivery {
                            to: from,
                            status: status_typing(),
                            client_id: None,
                        },
                    ),
                ],
            },
        ),
    }
}

/// `s` moved to phase `p`.
pub open spec fn in_phase(s: SpecExchange, p: SpecPhase) -> SpecExchange {
    SpecExchange { from: s.from, to: s.to, text: s.text, client_id: s.client_id, phase: p }
}

/// The events that end a send whose receipt was recorded: the message to the
/// recipient, then the confirmation to the sender.
pub open spec fn completion_events(s: SpecExchange, outgoing: Seq<char>, translated: bool) -> Seq<
    (UserId, SpecServerEvent),
> {
    seq![
        (
            s.to,
            SpecServerEvent::Message {
                from: s.from,
                text: outgoing,
                original: s.text,
                translated,
                client_id: s.client_id,
            },
        ),
        (s.from, SpecServerEvent::Delivery { to: s.to, status: status_sent(), client_id: s.client_id }),
    ]
}

/// One transition: the exchange's next state and the next action, given what
/// the last action yielded.
pub open spec fn next(s: SpecExchange, r: SpecReply) -> (SpecExchange, SpecAction) {
    let done = in_phase(s, SpecPhase::Finished);
    match s.phase {
        SpecPhase::Authorizing => match r {
            SpecReply::Connected(true) => (
                in_phase(s, SpecPhase::LoadingProfile),
                SpecAction::LoadProfile { user: s.to },
            ),
            SpecReply::Connected(false) | SpecReply::Failed => (
                done,
                SpecAction::Emit {
                    events: seq![(s.from, SpecServerEvent::Error { message: connection_required() })],
                },
            ),
            _ => (done, SpecAction::Abort),
        },
        SpecPhase::LoadingProfile => match r {
            SpecReply::Profile(Some((quota, language))) => if takes_translation(quota) {
                (
                    in_phase(s, SpecPhase::DecrementingQuota { target_locale: language }),
                    SpecAction::DecrementQuota { user: s.to },
                )
            } else {
                (
                    in_phase(s, SpecPhase::Recording { outgoing: s.text, translated: false }),
                    SpecAction::RecordReceipt { sender: s.from, recipient: s.to, has_translation: false },
                )
            },
            _ => (done, SpecAction::Abort),
        },
        SpecPhase::DecrementingQuota { target_locale } => match r {
            SpecReply::QuotaUpdated => (
                in_phase(s, SpecPhase::Translating),
                SpecAction::Translate { text: s.text, target_locale },
            ),
            _ => (done, SpecAction::Abort),
        },
        SpecPhase::Translating => match r {
            SpecReply::Translated(t) => (
                in_phase(s, SpecPhase::Recording { outgoing: t, translated: true }),
                SpecAction::RecordReceipt { sender: s.from, recipient: s.to, has_translation: true },
            ),
            _ => (done, SpecAction::Abort),
        },
        SpecPhase::Recording { outgoing, translated } => match r {
            SpecReply::ReceiptRecorded => (
                done,
                SpecAction::Emit { events: completion_events(s, outgoing, translated) },
            ),
            _ => (done, SpecAction::Abort),
        },
        SpecPhase::Finished => (s, SpecAction::Abort),
    }
}

impl Exchange {
    /// Starts the exchange for `event`, received from `from`'s session.
    pub fn begin(from: UserId, event: ClientEvent) -> (r: (Exchange, Action))
        ensures
            (r.0@, r.1@) == begin(from, event@),
    {
        match event {
            ClientEvent::Message { to, text, client_id } => {
                let ex = Exchange { from, to, text, client_id, phase: Phase::Authorizing };
                (ex, Action::CheckConnection { from, to })
            },
            ClientEvent::Typing { to } => {
                let ev = ServerEvent::Delivery { to: from, status: typing_status(), client_id: None };
                let events = vec![Outbound { recipient: to, event: ev }];
                let ex = Exchange {
                    from,
                    to,
                    text: String::new(),
                    client_id: None,
                    phase: Phase::Finished,
                };
                let a = Action::Emit { events };
                assert(events@.map_values(|o: Outbound| o@) =~= begin(from, event@).1->events);
                (ex, a)
            },
        }
    }

    /// Whether the exchange is over.
    pub fn is_finished(&self) -> (r: bool)
        ensures
            r == (self@.phase is Finished),
    {
        match self.phase {
            Phase::Finished => true,
            _ => false,
        }
    }

    fn finish(&mut self)
        ensures
            final(self)@ == in_phase(old(self)@, SpecPhase::Finished),
    {
        self.phase = Phase::Finished;
    }

    /// Advances the exchange by what the last action yielded and returns the
    /// next action.
    pub fn step(&mut self, reply: Reply) -> (a: Action)
        ensures
            (final(self)@, a@) == next(old(self)@, reply@),
    {
        match self.phase {
            Phase::Authorizing => match reply {
                Reply::Connected(true) => {
                    self.phase = Phase::LoadingProfile;
                    Action::LoadProfile { user: self.to }
                },
                Reply::Connected(false) | Reply::Failed => {
                    self.finish();
                    let ev = ServerEvent::Error { message: connection_required_text() };
                    let events = vec![Outbound { recipient: self.from, event: ev }];
                    assert(events@.map_values(|o: Outbound| o@) =~= seq![
                        (self.from, SpecServerEvent::Error { message: connection_required() }),
                    ]);
                    Action::Emit { events }
                },
                _ => {
                    self.finish();
                    Action::Abort
                },
            },
            Phase::LoadingProfile => match reply {
                Reply::Profile(Some(p)) => {
                    if p.translation_quota_remaining > 0 {
                        self.phase = Phase::DecrementingQuota { target_locale: p.native_language };
                        Action::DecrementQuota { user: self.to }
                    } else {
                        self.phase = Phase::Recording { outgoing: self.text.clone(), translated: false };
                        Action::RecordReceipt { sender: self.from, recipient: self.to, has_translation: false }
                    }
                },
                _ => {
                    self.finish();
                    Action::Abort
                },
            },
            Phase::DecrementingQuota { ref target_locale } => match reply {
                Reply::QuotaUpdated => {
                    let target_locale = target_locale.clone();
                    self.phase = Phase::Translating;
                    Action::Translate { text: self.text.clone(), target_locale }
                },
                _ => {
                    self.finish();
                    Action::Abort
                },
            },
            Phase::Translating => match reply {
                Reply::Translated(t) => {
                    self.phase = Phase::Recording { outgoing: t, translated: true };
                    Action::RecordReceipt { sender: self.from, recipient: self.to, has_translation: true }
                },
                _ => {
                    self.finish();
                    Action::Abort
                },
            },
            Phase::Recording { ref outgoing, translated } => match reply {
                Reply::ReceiptRecorded => {
                    let ghost s = old(self)@;
                    let message = ServerEvent::Message {
                        from: self.from,
                        text: outgoing.clone(),
                        original: self.text.clone(),
                        translated,
                        client_id: clone_opt_text(&self.client_id),
                    };
                    let confirmation = ServerEvent::Delivery {
                        to: self.to,
                        status: sent_status(),
                        client_id: clone_opt_text(&self.client_id),
                    };
                    self.finish();
                    let events = vec![
                        Outbound { recipient: self.to, event: message },
                        Outbound { recipient: self.from, event: confirmation },
                    ];
                    assert(events@.map_values(|o: Outbound| o@) =~= completion_events(
                        s,
                        s.phase->outgoing,
                        s.phase->translated,
                    ));
                    Action::Emit { events }
                },
                _ => {
                    self.finish();
                    Action::Abort
                },
            },
            Phase::Finished => Action::Abort,
        }
    }
}

/// The actions an exchange in state `s` takes when its actions yield `replies`
/// in turn; it stops when the exchange is over or the replies run out.
pub open spec fn run(s: SpecExchange, replies: Seq<SpecReply>) -> Seq<SpecAction>
    decreases replies.len(),
{
    if replies.len() == 0 || s.phase is Finished {
        Seq::empty()
    } else {
        let (s2, a) = next(s, replies[0]);
        seq![a] + run(s2, replies.drop_first())
    }
}

/// Every action taken for `event` from `from`, when the driver's calls yield `replies`.
pub open spec fn exchange(from: UserId, event: SpecClientEvent, replies: Seq<SpecReply>) -> Seq<
    SpecAction,
> {
    let (s, a) = begin(from, event);
    seq![a] + run(s, replies)
}

/// The `has_translation` flags of the receipts recorded by `t`, in order.
pub open spec fn receipt_flags(t: Seq<SpecAction>) -> Seq<bool>
    decreases t.len(),
{
    if t.len() == 0 {
        Seq::empty()
    } else {
        let head = match t[0] {
            SpecAction::RecordReceipt { has_translation, .. } => seq![has_translation],
            _ => Seq::empty(),
        };
        head + receipt_flags(t.drop_first())
    }
}

/// Whether `t` decrements a quota (the translation branch).
pub open spec fn took_translation(t: Seq<SpecAction>) -> bool
    decreases t.len(),
{
    t.len() > 0 && (t[0] is DecrementQuota || took_translation(t.drop_first()))
}

/// Whether `a` pushes a chat message.
pub open spec fn emits_message(a: SpecAction) -> bool {
    a is Emit && exists|j: int| 0 <= j < a->events.len() && (#[trigger] a->events[j]).1 is Message
}

/// Whether `t` pushes a chat message to anyone: the send completed.
pub open spec fn delivered(t: Seq<SpecAction>) -> bool
    decreases t.len(),
{
    t.len() > 0 && (emits_message(t[0]) || delivered(t.drop_first()))
}

proof fn lemma_single(a: SpecAction)
    ensures
        receipt_flags(seq![a]) == (match a {
            SpecAction::RecordReceipt { has_translation, .. } => seq![has_translation],
            _ => Seq::<bool>::empty(),
        }),
        took_translation(seq![a]) == a is DecrementQuota,
        delivered(seq![a]) == emits_message(a),
{
    assert(seq![a].drop_first() =~= Seq::<SpecAction>::empty());
    assert(receipt_flags(Seq::<SpecAction>::empty()) =~= Seq::<bool>::empty());
    assert(!took_translation(Seq::<SpecAction>::empty()));
    assert(!delivered(Seq::<SpecAction>::empty()));
    match a {
        SpecAction::RecordReceipt { has_translation, .. } => {
            assert(receipt_flags(seq![a]) =~= seq![has_translation] + Seq::<bool>::empty());
        },
        _ => {
            assert(receipt_flags(seq![a]) =~= Seq::<bool>::empty() + Seq::<bool>::empty());
        },
    }
}

proof fn lemma_cons(a: SpecAction, t: Seq<SpecAction>)
    ensures
        receipt_flags(seq![a] + t) == receipt_flags(seq![a]) + receipt_flags(t),
        took_translation(seq![a] + t) == (a is DecrementQuota || took_translation(t)),
        delivered(seq![a] + t) == (emits_message(a) || delivered(t)),
{
    let c = seq![a] + t;
    assert(c.drop_first() =~= t);
    assert(c[0] == a);
    lemma_single(a);
}

proof fn lemma_run_done(s: SpecExchange, replies: Seq<SpecReply>)
    requires
        s.phase is Finished,
    ensures
        run(s, replies) == Seq::<SpecAction>::empty(),
        receipt_flags(run(s, replies)) == Seq::<bool>::empty(),
        !took_translation(run(s, replies)),
        !delivered(run(s, replies)),
{
}

proof fn lemma_run_single(s: SpecExchange, replies: Seq<SpecReply>)
    requires
        replies.len() > 0,
        !(s.phase is Finished),
        next(s, replies[0]).0.phase is Finished,
    ensures
        run(s, replies) == seq![next(s, replies[0]).1],
{
    lemma_run_done(next(s, replies[0]).0, replies.drop_first());
    assert(run(s, replies) =~= seq![next(s, replies[0]).1]);
}

proof fn lemma_from_recording(s: SpecExchange, replies: Seq<SpecReply>)
    requires
        s.phase is Recording,
    ensures
        receipt_flags(run(s, replies)) == Seq::<bool>::empty(),
        !took_translation(run(s, replies)),
{
    if replies.len() > 0 {
        lemma_run_single(s, replies);
        lemma_single(next(s, replies[0]).1);
    }
}

proof fn lemma_from_translating(s: SpecExchange, replies: Seq<SpecReply>)
    requires
        s.phase is Translating || s.phase is DecrementingQuota,
    ensures
        ({
            let t = run(s, replies);
            &&& receipt_flags(t) == Seq::<bool>::empty() || receipt_flags(t) == seq![true]
            &&& !took_translation(t)
            &&& delivered(t) ==> receipt_flags(t) == seq![true]
        }),
    decreases replies.len(),
{
    if replies.len() > 0 {
        let (s2, a) = next(s, replies[0]);
        let rest = replies.drop_first();
        let t = run(s, replies);
        assert(t == seq![a] + run(s2, rest));
        lemma_cons(a, run(s2, rest));
        if s2.phase is Finished {
            lemma_run_done(s2, rest);
            lemma_single(a);
            assert(receipt_flags(t) =~= Seq::<bool>::empty());
        } else if s2.phase is Recording {
            lemma_from_recording(s2, rest);
            lemma_single(a);
            assert(receipt_flags(t) =~= seq![true]);
        } else {
            lemma_from_translating(s2, rest);
            lemma_single(a);
            assert(receipt_flags(t) =~= receipt_flags(run(s2, rest)));
        }
    }
}

proof fn lemma_from_profile(s: SpecExchange, replies: Seq<SpecReply>)
    requires
        s.phase is LoadingProfile,
    ensures
        ({
            let t = run(s, replies);
            &&& receipt_flags(t).len() <= 1
            &&& delivered(t) ==> receipt_flags(t) == seq![took_translation(t)]
        }),
{
    if replies.len() > 0 {
        let (s2, a) = next(s, replies[0]);
        let rest = replies.drop_first();
        let t = run(s, replies);
        assert(t == seq![a] + run(s2, rest));
        lemma_cons(a, run(s2, rest));
        if s2.phase is Finished {
            lemma_run_done(s2, rest);
            lemma_single(a);
            assert(receipt_flags(t) =~= Seq::<bool>::empty());
        } else if s2.phase is Recording {
            lemma_from_recording(s2, rest);
            lemma_single(a);
            assert(receipt_flags(t) =~= seq![false]);
        } else {
            lemma_from_translating(s2, rest);
            lemma_single(a);
            assert(receipt_flags(t) =~= receipt_flags(run(s2, rest)));
        }
    }
}

/// Receipts: whatever the collaborators answer, one inbound event records at
/// most one receipt, and a send that delivers its message has recorded
/// exactly one, marked translated exactly when the quota branch was taken.
pub proof fn lemma_one_receipt_per_send(
    from: UserId,
    event: SpecClientEvent,
    replies: Seq<SpecReply>,
)
    ensures
        ({
            let t = exchange(from, event, replies);
            &&& receipt_flags(t).len() <= 1
            &&& delivered(t) ==> receipt_flags(t) == seq![took_translation(t)]
        }),
{
    let (s, a) = begin(from, event);
    let rest = run(s, replies);
    lemma_cons(a, rest);
    lemma_single(a);
    if s.phase is Finished {
        lemma_run_done(s, replies);
        assert(a->events[0].1 is Delivery);
        assert(receipt_flags(exchange(from, event, replies)) =~= Seq::<bool>::empty());
    } else {
        if replies.len() > 0 {
            let (s2, b) = next(s, replies[0]);
            let rest2 = replies.drop_first();
            assert(rest == seq![b] + run(s2, rest2));
            lemma_cons(b, run(s2, rest2));
            lemma_single(b);
            if s2.phase is Finished {
                lemma_run_done(s2, rest2);
                if b is Emit {
                    assert(b->events[0].1 is Error);
                }
            } else {
                lemma_from_profile(s2, rest2);
            }
            assert(receipt_flags(rest) =~= receipt_flags(run(s2, rest2)));
        }
        assert(receipt_flags(exchange(from, event, replies)) =~= receipt_flags(rest));
    }
}

/// Whether some event of trace `t` is addressed to `user`.
pub open spec fn addressed_to(t: Seq<SpecAction>, user: UserId) -> bool {
    exists|i: int, j: int|
        0 <= i < t.len() && (#[trigger] t[i]) is Emit && 0 <= j < t[i]->events.len() && (
        #[trigger] t[i]->events[j]).0 == user
}

/// Authorization gate: when the connection check answers no, or fails, the
/// exchange only sends `connection_required` to the sender and records no
/// receipt, whatever comes after; when sender and addressee differ, nothing
/// is addressed to the addressee.
pub proof fn lemma_unconnected_only_errors(
    from: UserId,
    to: UserId,
    text: Seq<char>,
    client_id: Option<Seq<char>>,
    replies: Seq<SpecReply>,
)
    requires
        replies.len() > 0,
        replies[0] == SpecReply::Connected(false) || replies[0] == SpecReply::Failed,
    ensures
        exchange(from, SpecClientEvent::Message { to, text, client_id }, replies) == seq![
            SpecAction::CheckConnection { from, to },
            SpecAction::Emit {
                events: seq![(from, SpecServerEvent::Error { message: connection_required() })],
            },
        ],
        from != to ==> !addressed_to(
            exchange(from, SpecClientEvent::Message { to, text, client_id }, replies),
            to,
        ),
        receipt_flags(exchange(from, SpecClientEvent::Message { to, text, client_id }, replies))
            == Seq::<bool>::empty(),
{
    let (s, a) = begin(from, SpecClientEvent::Message { to, text, client_id });
    let t = exchange(from, SpecClientEvent::Message { to, text, client_id }, replies);
    lemma_run_single(s, replies);
    assert(t =~= seq![a, next(s, replies[0]).1]);
    lemma_cons(a, seq![next(s, replies[0]).1]);
    lemma_single(a);
    lemma_single(next(s, replies[0]).1);
    assert(receipt_flags(t) =~= Seq::<bool>::empty());
    if from != to {
        assert forall|i: int, j: int|
            0 <= i < t.len() && (#[trigger] t[i]) is Emit && 0 <= j < t[i]->events.len() implies (
            #[trigger] t[i]->events[j]).0 != to by {
            assert(i == 1);
            assert(j == 0);
        }
    }
}

/// Typing has no side effects: it is forwarded to the addressee as a `typing`
/// delivery naming the typist, and nothing else happens: no connection check,
/// no quota, no receipt; when typist and addressee differ, nothing is
/// addressed to the typist.
pub proof fn lemma_typing_only_forwards(from: UserId, to: UserId, replies: Seq<SpecReply>)
    ensures
        exchange(from, SpecClientEvent::Typing { to }, replies) == seq![
            SpecAction::Emit {
                events: seq![
                    (to, SpecServerEvent::Delivery { to: from, status: status_typing(), client_id: None }),
                ],
            },
        ],
        forall|i: int|
            0 <= i < exchange(from, SpecClientEvent::Typing { to }, replies).len() ==> !(
            #[trigger] exchange(from, SpecClientEvent::Typing { to }, replies)[i] is CheckConnection)
                && !(exchange(from, SpecClientEvent::Typing { to }, replies)[i] is DecrementQuota)
                && !(exchange(from, SpecClientEvent::Typing { to }, replies)[i] is RecordReceipt),
        from != to ==> !addressed_to(exchange(from, SpecClientEvent::Typing { to }, replies), from),
{
    let (s, a) = begin(from, SpecClientEvent::Typing { to });
    let t = exchange(from, SpecClientEvent::Typing { to }, replies);
    lemma_run_done(s, replies);
    assert(t =~= seq![a]);
    if from != to {
        assert forall|i: int, j: int|
            0 <= i < t.len() && (#[trigger] t[i]) is Emit && 0 <= j < t[i]->events.len() implies (
            #[trigger] t[i]->events[j]).0 != from by {
            assert(i == 0);
            assert(j == 0);
        }
    }
}

/// The user directory's quota after a decrement by one: floored at zero.
pub open spec fn quota_after_decrement(quota: int) -> int {
    if quota - 1 < 0 {
        0
    } else {
        quota - 1
    }
}

/// Replays `n` sends to one recipient whose profile shows `quota` to the
/// first: each send goes from the profile lookup on; a send that decrements
/// the quota leaves the directory's floored result for the next one.
/// Yields how many were translated and the quota left.
pub open spec fn replay_sends(s: SpecExchange, language: Seq<char>, quota: int, n: nat) -> (int, int)
    decreases n,
{
    if n == 0 {
        (0, quota)
    } else {
        let (_, a) = next(in_phase(s, SpecPhase::LoadingProfile), SpecReply::Profile(Some((quota, language))));
        if a is DecrementQuota {
            let (k, left) = replay_sends(s, language, quota_after_decrement(quota), (n - 1) as nat);
            (k + 1, left)
        } else {
            replay_sends(s, language, quota, (n - 1) as nat)
        }
    }
}

/// Quota floor: of `n` sends to a recipient with quota `quota`, exactly
/// `min(quota, n)` are translated, and the quota ends at `max(quota - n, 0)`,
/// never below zero.
pub proof fn lemma_quota_floor(s: SpecExchange, language: Seq<char>, quota: int, n: nat)
    requires
        quota >= 0,
    ensures
        replay_sends(s, language, quota, n).0 == (if quota < n { quota } else { n as int }),
        replay_sends(s, language, quota, n).1 == (if quota < n { 0 } else { quota - n }),
        replay_sends(s, language, quota, n).1 >= 0,
    decreases n,
{
    if n > 0 {
        lemma_quota_floor(s, language, quota_after_decrement(quota), (n - 1) as nat);
    }
}

/// The replies of collaborators that all succeed, for a recipient whose
/// profile shows `quota` and `language`, and a provider that answers `translation`.
pub open spec fn successful_replies(quota: int, language: Seq<char>, translation: Seq<char>) -> Seq<
    SpecReply,
> {
    if takes_translation(quota) {
        seq![
            SpecReply::Connected(true),
            SpecReply::Profile(Some((quota, language))),
            SpecReply::QuotaUpdated,
            SpecReply::Translated(translation),
            SpecReply::ReceiptRecorded,
        ]
    } else {
        seq![
            SpecReply::Connected(true),
            SpecReply::Profile(Some((quota, language))),
            SpecReply::ReceiptRecorded,
        ]
    }
}

/// A send between connected users whose collaborators all succeed records one
/// receipt before anything is sent, then pushes the message to the recipient
/// and `sent` to the sender. Nothing in it depends on whether the recipient
/// has a live session: the exchange has no such input, and the registry
/// drops what it cannot deliver.
pub proof fn lemma_completed_send(
    from: UserId,
    to: UserId,
    text: Seq<char>,
    client_id: Option<Seq<char>>,
    quota: int,
    language: Seq<char>,
    translation: Seq<char>,
)
    ensures
        ({
            let s = SpecExchange { from, to, text, client_id, phase: SpecPhase::Authorizing };
            let t = exchange(
                from,
                SpecClientEvent::Message { to, text, client_id },
                successful_replies(quota, language, translation),
            );
            if takes_translation(quota) {
                t == seq![
                    SpecAction::CheckConnection { from, to },
                    SpecAction::LoadProfile { user: to },
                    SpecAction::DecrementQuota { user: to },
                    SpecAction::Translate { text, target_locale: language },
                    SpecAction::RecordReceipt { sender: from, recipient: to, has_translation: true },
                    SpecAction::Emit { events: completion_events(s, translation, true) },
                ]
            } else {
                t == seq![
                    SpecAction::CheckConnection { from, to },
                    SpecAction::LoadProfile { user: to },
                    SpecAction::RecordReceipt { sender: from, recipient: to, has_translation: false },
                    SpecAction::Emit { events: completion_events(s, text, false) },
                ]
            }
        }),
{
    let s0 = SpecExchange { from, to, text, client_id, phase: SpecPhase::Authorizing };
    let rs = successful_replies(quota, language, translation);
    let r1 = rs.drop_first();
    let r2 = r1.drop_first();
    let r3 = r2.drop_first();
    let s1 = next(s0, rs[0]).0;
    let s2 = next(s1, r1[0]).0;
    let s3 = next(s2, r2[0]).0;
    assert(run(s0, rs) == seq![next(s0, rs[0]).1] + run(s1, r1));
    assert(run(s1, r1) == seq![next(s1, r1[0]).1] + run(s2, r2));
    assert(run(s2, r2) == seq![next(s2, r2[0]).1] + run(s3, r3));
    if takes_translation(quota) {
        let r4 = r3.drop_first();
        let r5 = r4.drop_first();
        let s4 = next(s3, r3[0]).0;
        let s5 = next(s4, r4[0]).0;
        assert(run(s3, r3) == seq![next(s3, r3[0]).1] + run(s4, r4));
        assert(run(s4, r4) == seq![next(s4, r4[0]).1] + run(s5, r5));
        assert(run(s5, r5) == Seq::<SpecAction>::empty());
        assert(in_phase(s0, SpecPhase::Finished) == in_phase(s4, SpecPhase::Finished));
        assert(run(s0, rs) =~= seq![
            next(s0, rs[0]).1,
            next(s1, r1[0]).1,
            next(s2, r2[0]).1,
            next(s3, r3[0]).1,
            next(s4, r4[0]).1,
        ]);
    } else {
        assert(run(s3, r3) == Seq::<SpecAction>::empty());
        assert(run(s0, rs) =~= seq![next(s0, rs[0]).1, next(s1, r1[0]).1, next(s2, r2[0]).1]);
    }
}

} // verus!
