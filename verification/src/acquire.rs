//! Getting at a key on a token: which questions are asked, in which order, and what
//! follows from the answers.

use vstd::prelude::*;

use crate::error;
use crate::error::Error;
use crate::openpgp;
use crate::session;
use crate::session::{KeySelector, LoginMode, Slot};
use crate::signer;
use crate::signer::Pkcs11Signer;
use crate::token;
use crate::token::{Attribute, AttributeType, KeyType};

verus! {

/// What the token is asked.
#[derive(Debug)]
pub enum Question {
    /// The slots that hold an initialised token.
    Slots,
    /// A session on a slot, logged in with the passphrase if there is one.
    Session { slot: u64, pin: Option<String> },
    /// The objects that match a template.
    Objects(Vec<Attribute>),
    /// Attributes of an object.
    Attributes { handle: u64, types: Vec<AttributeType> },
}

/// What the token answers.
#[derive(Debug)]
pub enum Answer {
    Slots(Vec<Slot>),
    Session,
    Objects(Vec<u64>),
    Attributes(Vec<Attribute>),
    /// The module returned an error.
    Failed(String),
}

/// What is being waited for.
#[derive(Debug, Clone, Copy, PartialEq, Eq, Structural)]
pub enum Phase {
    /// The slots.
    Slots,
    /// The session.
    Session,
    /// The private keys that the selector designates.
    PrivateKeys,
    /// The type of the private key.
    KeyType { handle: u64 },
    /// The modulus and the exponent of an RSA key.
    RsaMaterial { handle: u64 },
    /// The identifier and the label of a private key on an elliptic curve.
    EcNames { handle: u64 },
    /// The public key objects with that identifier and label.
    EcObjects { handle: u64 },
    /// The parameters and the point of the key.
    EcMaterial { handle: u64 },
}

/// The way to a key.
#[derive(Debug)]
pub struct Acquire {
    pub selector: KeySelector,
    pub login: LoginMode,
    pub phase: Phase,
}

/// How far the way to a key has been gone.
#[derive(Debug)]
pub enum Progress {
    /// A question is to be asked, and the answer to be handed to the next step.
    Ask(Acquire, Question),
    /// The key is there.
    Ready(Pkcs11Signer),
    /// There is no way to the key.
    Stuck(Error),
}

/// Whether an answer is one to the question that was asked last.  A question for the
/// type of a key is answered with that attribute or with none.
pub open spec fn answers(phase: Phase, answer: Answer) -> bool {
    match answer {
        Answer::Failed(_) => true,
        Answer::Slots(_) => phase is Slots,
        Answer::Session => phase is Session,
        Answer::Objects(_) => phase is PrivateKeys || phase is EcObjects,
        Answer::Attributes(attrs) => {
            &&& phase is KeyType || phase is RsaMaterial || phase is EcNames || phase is EcMaterial
            &&& phase is KeyType ==> (attrs@.len() > 0 ==> attrs@[0] is KeyType)
            &&& signer::countable(token::attribute_views(attrs@))
        },
    }
}

/// The progress is a question, asked in the given phase on the same way.
pub open spec fn asks(p: Progress, from: Acquire, phase: Phase) -> bool {
    p matches Progress::Ask(next, _) && next.selector == from.selector && next.login == from.login
        && next.phase == phase
}

/// The question that is asked.
pub open spec fn question(p: Progress) -> Question {
    p->Ask_1
}

/// The progress is that there is no way, for the given reason.
pub open spec fn stuck(p: Progress, e: error::ErrorView) -> bool {
    p matches Progress::Stuck(x) && x@ == e
}

/// A question for the attributes `types` of the object `handle`.
pub open spec fn asks_attributes(q: Question, handle: u64, types: Seq<AttributeType>) -> bool {
    q matches Question::Attributes { handle: h, types: t } && h == handle && t@ == types
}

/// What is said of a key that is too large for a fingerprint.
pub open spec fn too_large() -> error::ErrorView {
    error::ErrorView::UnsupportedKeyType(
        "the public key material is too large for an OpenPGP fingerprint"@,
    )
}

/// The key is there, or its material cannot be used.
pub open spec fn arrives(
    p: Progress,
    handle: u64,
    kt: KeyType,
    attrs: Seq<token::AttributeView>,
) -> bool {
    match signer::public_key_of(kt, attrs) {
        Ok(key) => if openpgp::usable(key) {
            p matches Progress::Ready(s) && s.priv_handle == handle && s.key_type == kt && s.public@
                == key
        } else {
            stuck(p, too_large())
        },
        Err(e) => stuck(p, e),
    }
}

/// `next` is what follows from `answer` on the way `a`.
pub open spec fn follows(a: Acquire, answer: Answer, next: Progress) -> bool {
    match (a.phase, answer) {
        (_, Answer::Failed(e)) => stuck(next, error::ErrorView::Pkcs11(e@)),
        (Phase::Slots, Answer::Slots(slots)) => match session::chosen_slot(
            slots@,
            a.selector@,
            a.login,
        ) {
            Err(e) => stuck(next, e),
            Ok(slot) => asks(next, a, Phase::Session) && (question(next) matches Question::Session {
                slot: s,
                pin,
            } && s == slot && match pin {
                Some(p) => session::login_pin(a.login) == Some(p@),
                None => session::login_pin(a.login) is None,
            }),
        },
        (Phase::Session, Answer::Session) => asks(next, a, Phase::PrivateKeys) && (question(
            next,
        ) matches Question::Objects(t) && token::attribute_views(t@)
            == session::private_key_template(a.selector@)),
        (Phase::PrivateKeys, Answer::Objects(found)) => match session::single_key(
            found@,
            a.selector@,
        ) {
            Err(e) => stuck(next, e),
            Ok(handle) => asks(next, a, Phase::KeyType { handle }) && asks_attributes(
                question(next),
                handle,
                seq![AttributeType::KeyType],
            ),
        },
        (Phase::KeyType { handle }, Answer::Attributes(attrs)) => if attrs@.len() == 0 {
            stuck(next, session::missing_attribute(AttributeType::KeyType))
        } else {
            match attrs@[0]->KeyType_0 {
                KeyType::RSA => asks(next, a, Phase::RsaMaterial { handle }) && asks_attributes(
                    question(next),
                    handle,
                    seq![AttributeType::Modulus, AttributeType::PublicExponent],
                ),
                KeyType::EC => asks(next, a, Phase::EcNames { handle }) && asks_attributes(
                    question(next),
                    handle,
                    seq![AttributeType::Id, AttributeType::Label],
                ),
                kt => stuck(next, signer::unsupported(token::key_type_debug(kt))),
            }
        },
        (Phase::RsaMaterial { handle }, Answer::Attributes(attrs)) => arrives(
            next,
            handle,
            KeyType::RSA,
            token::attribute_views(attrs@),
        ),
        (Phase::EcNames { handle }, Answer::Attributes(attrs)) => match signer::companion_template(
            token::attribute_views(attrs@),
        ) {
            None => stuck(next, signer::no_companion_attributes()),
            Some(template) => asks(next, a, Phase::EcObjects { handle }) && (question(
                next,
            ) matches Question::Objects(t) && token::attribute_views(t@) == template),
        },
        (Phase::EcObjects { handle }, Answer::Objects(found)) => match signer::only_companion(
            found@,
        ) {
            Err(message) => stuck(next, signer::unsupported(message)),
            Ok(public) => asks(next, a, Phase::EcMaterial { handle }) && asks_attributes(
                question(next),
                public,
                seq![AttributeType::EcParams, AttributeType::EcPoint],
            ),
        },
        (Phase::EcMaterial { handle }, Answer::Attributes(attrs)) => arrives(
            next,
            handle,
            KeyType::EC,
            token::attribute_views(attrs@),
        ),
        _ => true,
    }
}

fn two_types(a: AttributeType, b: AttributeType) -> (v: Vec<AttributeType>)
    ensures
        v@ == seq![a, b],
{
    let mut v: Vec<AttributeType> = Vec::new();
    v.push(a);
    v.push(b);
    assert(v@ =~= seq![a, b]);
    v
}

fn arrive(handle: u64, kt: KeyType, attrs: &Vec<Attribute>) -> (p: Progress)
    requires
        signer::countable(token::attribute_views(attrs@)),
    ensures
        arrives(p, handle, kt, token::attribute_views(attrs@)),
{
    match Pkcs11Signer::new(handle, kt, attrs) {
        Ok(s) => {
            if s.public.is_usable() {
                Progress::Ready(s)
            } else {
                Progress::Stuck(
                    Error::UnsupportedKeyType(
                        "the public key material is too large for an OpenPGP fingerprint".to_owned(),
                    ),
                )
            }
        },
        Err(e) => Progress::Stuck(e),
    }
}

impl Acquire {
    /// The way to the key that `selector` designates; the first question is for the
    /// slots.
    pub fn start(selector: KeySelector, login: LoginMode) -> (p: Progress)
        ensures
            p == Progress::Ask(Acquire { selector, login, phase: Phase::Slots }, Question::Slots),
    {
        Progress::Ask(Acquire { selector, login, phase: Phase::Slots }, Question::Slots)
    }

    fn ask(self, phase: Phase, q: Question) -> (p: Progress)
        ensures
            asks(p, self, phase),
            question(p) == q,
    {
        Progress::Ask(Acquire { selector: self.selector, login: self.login, phase }, q)
    }

    fn with_slots(self, slots: &Vec<Slot>) -> (p: Progress)
        requires
            self.phase is Slots,
        ensures
            forall|answer: Answer|
                answer matches Answer::Slots(s) && s == slots ==> #[trigger] follows(
                    self,
                    answer,
                    p,
                ),
    {
        match session::open_session(slots, &self.selector, &self.login) {
            Ok(slot) => {
                let pin = match &self.login {
                    LoginMode::NoLogin => None,
                    LoginMode::Pin(pin) => Some(pin.clone()),
                };
                self.ask(Phase::Session, Question::Session { slot, pin })
            },
            Err(e) => Progress::Stuck(e),
        }
    }

    /// The next step, from the answer to the last question.
    pub fn step(self, answer: Answer) -> (next: Progress)
        requires
            answers(self.phase, answer),
        ensures
            follows(self, answer, next),
    {
        let ghost given = answer;
        match answer {
            Answer::Failed(e) => Progress::Stuck(Error::Pkcs11(e)),
            Answer::Slots(slots) => {
                let next = self.with_slots(&slots);
                assert(follows(self, given, next));
                next
            },
            Answer::Session => {
                let template = session::find_private_keys(&self.selector);
                self.ask(Phase::PrivateKeys, Question::Objects(template))
            },
            Answer::Objects(found) => {
                match self.phase {
                    Phase::EcObjects { handle } => match signer::resolve_companion(&found) {
                        Ok(public) => {
                            let types = two_types(AttributeType::EcParams, AttributeType::EcPoint);
                            self.ask(
                                Phase::EcMaterial { handle },
                                Question::Attributes { handle: public, types },
                            )
                        },
                        Err(e) => Progress::Stuck(e),
                    },
                    _ => match session::resolve_single_key(&found, &self.selector) {
                        Ok(handle) => {
                            let mut types: Vec<AttributeType> = Vec::new();
                            types.push(AttributeType::KeyType);
                            assert(types@ =~= seq![AttributeType::KeyType]);
                            self.ask(
                                Phase::KeyType { handle },
                                Question::Attributes { handle, types },
                            )
                        },
                        Err(e) => Progress::Stuck(e),
                    },
                }
            },
            Answer::Attributes(attrs) => {
                match self.phase {
                    Phase::RsaMaterial { handle } => arrive(handle, KeyType::RSA, &attrs),
                    Phase::EcMaterial { handle } => arrive(handle, KeyType::EC, &attrs),
                    Phase::EcNames { handle } => match signer::find_companion_public_key(&attrs) {
                        Ok(template) => self.ask(
                            Phase::EcObjects { handle },
                            Question::Objects(template),
                        ),
                        Err(e) => Progress::Stuck(e),
                    },
                    Phase::KeyType { handle } => match session::key_type(&attrs) {
                        Ok(KeyType::RSA) => {
                            let types = two_types(
                                AttributeType::Modulus,
                                AttributeType::PublicExponent,
                            );
                            self.ask(
                                Phase::RsaMaterial { handle },
                                Question::Attributes { handle, types },
                            )
                        },
                        Ok(KeyType::EC) => {
                            let types = two_types(AttributeType::Id, AttributeType::Label);
                            self.ask(
                                Phase::EcNames { handle },
                                Question::Attributes { handle, types },
                            )
                        },
                        Ok(kt) => Progress::Stuck(Error::UnsupportedKeyType(kt.debug())),
                        Err(e) => Progress::Stuck(e),
                    },
                    _ => vstd::pervasive::unreached(),
                }
            },
        }
    }
}

// ---------------------------------------------------------------------------
// Laws
// ---------------------------------------------------------------------------

/// How many questions can follow at most.
pub open spec fn questions_left(phase: Phase) -> nat {
    match phase {
        Phase::Slots => 6,
        Phase::Session => 5,
        Phase::PrivateKeys => 4,
        Phase::KeyType { .. } => 3,
        Phase::RsaMaterial { .. } => 0,
        Phase::EcNames { .. } => 2,
        Phase::EcObjects { .. } => 1,
        Phase::EcMaterial { .. } => 0,
    }
}

/// Every answer brings the end nearer, so that the way to a key ends.
pub proof fn acquisition_ends(a: Acquire, answer: Answer, next: Progress)
    requires
        answers(a.phase, answer),
        follows(a, answer, next),
    ensures
        next matches Progress::Ask(b, _) ==> questions_left(b.phase) < questions_left(a.phase),
{
}

/// A key that is arrived at is usable, stamped with the epoch, and of a type that the
/// token can sign with.
pub proof fn acquired_keys_are_usable(a: Acquire, answer: Answer, next: Progress)
    requires
        answers(a.phase, answer),
        follows(a, answer, next),
    ensures
        next matches Progress::Ready(s) ==> {
            &&& openpgp::usable(s.public@)
            &&& s.public@.creation_time == 0
            &&& s.key_type == KeyType::RSA <==> s.public@.mpis is RSA
            &&& s.key_type == KeyType::EC <==> s.public@.mpis is ECDSA
        },
{
}

/// A passphrase is given to a token only if one was asked for, and no private key is
/// looked for before there is a session.
pub proof fn login_precedes_search(a: Acquire, answer: Answer, next: Progress)
    requires
        answers(a.phase, answer),
        follows(a, answer, next),
    ensures
        next matches Progress::Ask(b, q) ==> {
            &&& q is Session <==> a.phase is Slots
            &&& q matches Question::Session { slot, pin } ==> (pin is Some <==> a.login is Pin)
            &&& b.phase is PrivateKeys <==> a.phase is Session
        },
{
}

/// On the way to a key the selector and the login stay as they are.
pub proof fn ways_keep_their_goal(a: Acquire, answer: Answer, next: Progress)
    requires
        answers(a.phase, answer),
        follows(a, answer, next),
    ensures
        next matches Progress::Ask(b, _) ==> b.selector@ == a.selector@ && session::login_pin(
            b.login,
        ) == session::login_pin(a.login) && b.login == a.login,
        answer matches Answer::Failed(e) ==> (next matches Progress::Stuck(x) && x@
            == error::ErrorView::Pkcs11(e@)),
{
}

/// A session is asked for on the slot that the selector and the login designate, and with
/// the passphrase of the login; then the keys that the selector designates are looked for.
/// Without such a slot there is no way.
pub proof fn sessions_are_on_the_chosen_slot(a: Acquire, answer: Answer, next: Progress)
    requires
        answers(a.phase, answer),
        follows(a, answer, next),
    ensures
        answer matches Answer::Slots(slots) ==> match session::chosen_slot(
            slots@,
            a.selector@,
            a.login,
        ) {
            Ok(chosen) => next matches Progress::Ask(b, Question::Session { slot, pin }) && {
                &&& b.phase == Phase::Session
                &&& slot == chosen
                &&& a.login is NoLogin ==> pin is None
                &&& a.login matches LoginMode::Pin(p) ==> (pin matches Some(q) && q@ == p@)
            },
            Err(e) => next matches Progress::Stuck(x) && x@ == e,
        },
        answer is Session ==> (next matches Progress::Ask(b, Question::Objects(t)) && b.phase
            == Phase::PrivateKeys && forall|x: token::AttributeView| #[trigger]
            token::attribute_views(t@).contains(x) <==> session::private_key_template(
                a.selector@,
            ).contains(x)),
{
}

/// The only private key that was found is the one whose type and material are asked for,
/// and the one that signs in the end; several, or none, are no way.
pub proof fn the_found_key_is_used(a: Acquire, answer: Answer, next: Progress)
    requires
        answers(a.phase, answer),
        follows(a, answer, next),
    ensures
        a.phase is PrivateKeys ==> (answer matches Answer::Objects(found) ==> {
            &&& found@.len() != 1 <==> next is Stuck
            &&& found@.len() == 1 ==> (next matches Progress::Ask(b, Question::Attributes {
                handle,
                types,
            }) && b.phase == Phase::KeyType { handle: found@[0] } && handle == found@[0] && types@
                == seq![AttributeType::KeyType])
        }),
        a.phase matches Phase::KeyType { handle: h } ==> (answer matches Answer::Attributes(
            attrs,
        ) ==> {
            &&& attrs@.len() == 0 ==> next is Stuck
            &&& attrs@.len() > 0 ==> match attrs@[0] {
                Attribute::KeyType(KeyType::RSA) => next matches Progress::Ask(
                    b,
                    Question::Attributes { handle, types },
                ) && b.phase == Phase::RsaMaterial { handle: h } && handle == h && types@.contains(
                    AttributeType::Modulus,
                ) && types@.contains(AttributeType::PublicExponent) && types@.len() == 2,
                Attribute::KeyType(KeyType::EC) => next matches Progress::Ask(
                    b,
                    Question::Attributes { handle, types },
                ) && b.phase == Phase::EcNames { handle: h } && handle == h && types@.contains(
                    AttributeType::Id,
                ) && types@.contains(AttributeType::Label) && types@.len() == 2,
                _ => next is Stuck,
            }
        }),
        a.phase matches Phase::EcNames { handle: h } ==> (answer matches Answer::Attributes(
            attrs,
        ) ==> match signer::companion_template(token::attribute_views(attrs@)) {
            Some(template) => next matches Progress::Ask(b, Question::Objects(t)) && b.phase
                == Phase::EcObjects { handle: h } && token::attribute_views(t@) == template,
            None => next is Stuck,
        }),
        a.phase matches Phase::EcObjects { handle: h } ==> (answer matches Answer::Objects(
            found,
        ) ==> {
            &&& found@.len() != 1 <==> next is Stuck
            &&& found@.len() == 1 ==> (next matches Progress::Ask(b, Question::Attributes {
                handle,
                types,
            }) && b.phase == Phase::EcMaterial { handle: h } && handle == found@[0]
                && types@.contains(AttributeType::EcParams) && types@.contains(
                AttributeType::EcPoint,
            ) && types@.len() == 2)
        }),
{
    let rsa = seq![AttributeType::Modulus, AttributeType::PublicExponent];
    assert(rsa[0] == AttributeType::Modulus && rsa[1] == AttributeType::PublicExponent);
    let names = seq![AttributeType::Id, AttributeType::Label];
    assert(names[0] == AttributeType::Id && names[1] == AttributeType::Label);
    let ec = seq![AttributeType::EcParams, AttributeType::EcPoint];
    assert(ec[0] == AttributeType::EcParams && ec[1] == AttributeType::EcPoint);
    if let (Phase::KeyType { handle }, Answer::Attributes(attrs)) = (a.phase, answer) {
        if attrs@.len() > 0 {
            let kt = attrs@[0]->KeyType_0;
            assert(attrs@[0] == Attribute::KeyType(kt));
        }
    }
}

/// A key that is arrived at is the private key that was found, of the type that it has, and
/// with the material that the token states of it; it is arrived at from that material
/// alone, and wherever that is usable.
pub proof fn arrived_keys_are_the_found_ones(a: Acquire, answer: Answer, next: Progress)
    requires
        answers(a.phase, answer),
        follows(a, answer, next),
    ensures
        next matches Progress::Ready(s) ==> (a.phase matches Phase::RsaMaterial { handle }
            && s.priv_handle == handle && s.key_type == KeyType::RSA) || (
        a.phase matches Phase::EcMaterial { handle } && s.priv_handle == handle && s.key_type
            == KeyType::EC),
        a.phase is RsaMaterial ==> (answer matches Answer::Attributes(attrs) ==> {
            &&& next matches Progress::Ready(s) ==> signer::rsa_public(
                token::attribute_views(attrs@),
            ) == Ok::<openpgp::KeyView, error::ErrorView>(s.public@)
            &&& signer::rsa_public(token::attribute_views(attrs@)) matches Ok(key) ==> (
            openpgp::usable(key) <==> next is Ready)
            &&& next is Ready || next is Stuck
        }),
        a.phase is EcMaterial ==> (answer matches Answer::Attributes(attrs) ==> {
            &&& next matches Progress::Ready(s) ==> signer::ec_public(token::attribute_views(attrs@))
                == Ok::<openpgp::KeyView, error::ErrorView>(s.public@)
            &&& signer::ec_public(token::attribute_views(attrs@)) matches Ok(key) ==> (
            openpgp::usable(key) <==> next is Ready)
            &&& next is Ready || next is Stuck
        }),
{
}

} // verus!
