//! Choosing the slot, the session and the key that a selector designates.

use vstd::prelude::*;

use crate::error;
use crate::error::Error;
use crate::text;
use crate::token;
use crate::token::{Attribute, AttributeType, KeyType, ObjectClass};
use crate::uri;
use crate::uri::Pkcs11Uri;

verus! {

// ---------------------------------------------------------------------------
// Selectors
// ---------------------------------------------------------------------------

/// Which key is meant.
#[derive(Debug)]
pub enum KeySelector {
    /// The key that a PKCS#11 URI designates.
    Uri(Pkcs11Uri),
    /// The key with this `CKA_LABEL`.
    Label(String),
    /// The key with this `CKA_ID`.
    Id(Vec<u8>),
    /// The only key there is.
    Auto,
}

/// The mathematical content of a [`KeySelector`].
pub enum SelectorView {
    Uri(uri::UriView),
    Label(Seq<char>),
    Id(Seq<u8>),
    Auto,
}

impl View for KeySelector {
    type V = SelectorView;

    open spec fn view(&self) -> SelectorView {
        match self {
            KeySelector::Uri(u) => SelectorView::Uri(u@),
            KeySelector::Label(l) => SelectorView::Label(l@),
            KeySelector::Id(i) => SelectorView::Id(i@),
            KeySelector::Auto => SelectorView::Auto,
        }
    }
}

impl Clone for KeySelector {
    fn clone(&self) -> (s: Self)
        ensures
            s@ == self@,
    {
        match self {
            KeySelector::Uri(u) => KeySelector::Uri(u.clone()),
            KeySelector::Label(l) => KeySelector::Label(l.clone()),
            KeySelector::Id(i) => KeySelector::Id(vstd::slice::slice_to_vec(i.as_slice())),
            KeySelector::Auto => KeySelector::Auto,
        }
    }
}

/// An optional text in messages.
pub open spec fn optional_text(t: Option<Seq<char>>) -> Seq<char> {
    match t {
        Some(t) => "Some("@ + text::debug_text(t) + ")"@,
        None => "None"@,
    }
}

/// Optional bytes in messages.
pub open spec fn optional_bytes(b: Option<Seq<u8>>) -> Seq<char> {
    match b {
        Some(b) => "Some("@ + text::byte_list_text(b) + ")"@,
        None => "None"@,
    }
}

/// A selector in messages.
pub open spec fn selector_text(s: SelectorView) -> Seq<char> {
    match s {
        SelectorView::Uri(u) => "Uri(Pkcs11Uri { token_label: "@ + optional_text(u.token_label)
            + ", object_label: "@ + optional_text(u.object_label) + ", key_id: "@ + optional_bytes(
            u.key_id,
        ) + " })"@,
        SelectorView::Label(l) => "Label("@ + text::debug_text(l) + ")"@,
        SelectorView::Id(i) => "Id("@ + text::byte_list_text(i) + ")"@,
        SelectorView::Auto => "Auto"@,
    }
}

fn describe_text(t: &Option<String>) -> (out: String)
    ensures
        match t {
            Some(s) => out@ == optional_text(Some(s@)),
            None => out@ == optional_text(None),
        },
{
    match t {
        Some(s) => text::join3("Some(", text::debug_str(s.as_str()).as_str(), ")"),
        None => "None".to_owned(),
    }
}

fn describe_bytes(b: &Option<Vec<u8>>) -> (out: String)
    ensures
        match b {
            Some(v) => out@ == optional_bytes(Some(v@)),
            None => out@ == optional_bytes(None),
        },
{
    match b {
        Some(v) => text::join3("Some(", text::byte_list(v.as_slice()).as_str(), ")"),
        None => "None".to_owned(),
    }
}

impl KeySelector {
    /// The selector as it appears in messages.
    pub fn text(&self) -> (out: String)
        ensures
            out@ == selector_text(self@),
    {
        match self {
            KeySelector::Uri(u) => {
                let mut out = text::join3(
                    "Uri(Pkcs11Uri { token_label: ",
                    describe_text(&u.token_label).as_str(),
                    ", object_label: ",
                );
                out.append(describe_text(&u.object_label).as_str());
                out.append(", key_id: ");
                out.append(describe_bytes(&u.key_id).as_str());
                out.append(" })");
                out
            },
            KeySelector::Label(l) => text::join3(
                "Label(",
                text::debug_str(l.as_str()).as_str(),
                ")",
            ),
            KeySelector::Id(i) => text::join3("Id(", text::byte_list(i.as_slice()).as_str(), ")"),
            KeySelector::Auto => "Auto".to_owned(),
        }
    }
}

/// How to authenticate a session once it is open.
///
/// Card sets with a quorum are authenticated before this program runs, by the
/// vendor's `preload`; the module then presents a session that needs no login.
#[derive(Debug)]
pub enum LoginMode {
    /// No login: the key is protected by the module, or the session is
    /// authenticated already.
    NoLogin,
    /// A login with a passphrase: a softcard, or a card set with a quorum of one.
    Pin(String),
}

/// Whether a passphrase is to be given, and which.
pub open spec fn login_pin(login: LoginMode) -> Option<Seq<char>> {
    match login {
        LoginMode::NoLogin => None,
        LoginMode::Pin(pin) => Some(pin@),
    }
}

// ---------------------------------------------------------------------------
// Slots
// ---------------------------------------------------------------------------

/// A token in a slot.
#[derive(Debug)]
pub struct TokenInfo {
    pub label: String,
    pub login_required: bool,
}

/// A slot, with its token where that could be read.
#[derive(Debug)]
pub struct Slot {
    pub id: u64,
    pub token: Option<TokenInfo>,
}

/// Whether the slot's token carries the label, white space around it aside.
pub open spec fn carries_label(slot: Slot, label: Seq<char>) -> bool {
    slot.token matches Some(info) && text::trimmed(info.label@) == text::trimmed(label)
}

/// The slots whose token carries the label, in order.
pub open spec fn labelled_slots(slots: Seq<Slot>, label: Seq<char>) -> Seq<u64>
    decreases slots.len(),
{
    if slots.len() == 0 {
        Seq::empty()
    } else if carries_label(slots.last(), label) {
        labelled_slots(slots.drop_last(), label).push(slots.last().id)
    } else {
        labelled_slots(slots.drop_last(), label)
    }
}

/// The one slot whose token carries the label.
pub open spec fn slot_by_label(slots: Seq<Slot>, label: Seq<char>) -> Result<
    u64,
    error::ErrorView,
> {
    let matching = labelled_slots(slots, label);
    if matching.len() == 0 {
        Err(error::ErrorView::KeyNotFound("no token matched label "@ + text::debug_text(label)))
    } else if matching.len() == 1 {
        Ok(matching[0])
    } else {
        Err(error::ErrorView::AmbiguousKey { count: matching.len() })
    }
}

/// The one slot among `slots` whose token carries the label that `uri` states.
pub fn find_slot_by_uri(slots: &Vec<Slot>, uri: &Pkcs11Uri) -> (r: Result<u64, Error>)
    requires
        uri.token_label is Some,
    ensures
        match slot_by_label(slots@, uri@.token_label->0) {
            Ok(slot) => r matches Ok(s) && s == slot,
            Err(e) => error::fails_with(r, e),
        },
{
    let label: &String = match &uri.token_label {
        Some(label) => label,
        None => vstd::pervasive::unreached(),
    };
    let wanted = text::trim(label.as_str());
    let mut matching: Vec<u64> = Vec::new();
    let mut i: usize = 0;
    while i < slots.len()
        invariant
            i <= slots.len(),
            wanted@ == text::trimmed(label@),
            matching@ == labelled_slots(slots@.take(i as int), label@),
        decreases slots.len() - i,
    {
        if let Some(info) = &slots[i].token {
            if text::trim(info.label.as_str()) == wanted {
                matching.push(slots[i].id);
            }
        }
        i += 1;
        assert(slots@.take(i as int).drop_last() =~= slots@.take(i - 1));
        assert(slots@.take(i as int).last() == slots@[i - 1]);
    }
    assert(slots@.take(i as int) =~= slots@);
    if matching.len() == 0 {
        Err(
            Error::KeyNotFound(
                text::join2("no token matched label ", text::debug_str(label.as_str()).as_str()),
            ),
        )
    } else if matching.len() == 1 {
        Ok(matching[0])
    } else {
        Err(Error::AmbiguousKey { count: matching.len() })
    }
}

/// Whether the slot's token needs no login.
pub open spec fn needs_no_login(slot: Slot) -> bool {
    slot.token matches Some(info) && !info.login_required
}

/// The index of the first slot whose token needs no login, or the number of slots.
pub open spec fn first_open_slot(slots: Seq<Slot>) -> int
    decreases slots.len(),
{
    if slots.len() == 0 || needs_no_login(slots[0]) {
        0
    } else {
        1 + first_open_slot(slots.drop_first())
    }
}

proof fn first_open_slot_is(slots: Seq<Slot>, i: int)
    requires
        0 <= i <= slots.len(),
        forall|k: int| 0 <= k < i ==> !needs_no_login(#[trigger] slots[k]),
        i < slots.len() ==> needs_no_login(slots[i]),
    ensures
        first_open_slot(slots) == i,
    decreases slots.len(),
{
    if slots.len() > 0 && i > 0 {
        assert(!needs_no_login(slots[0]));
        assert forall|k: int| 0 <= k < i - 1 implies !needs_no_login(
            #[trigger] slots.drop_first()[k],
        ) by {
            assert(slots.drop_first()[k] == slots[k + 1]);
        }
        first_open_slot_is(slots.drop_first(), i - 1);
    }
}

/// What is said where no slot can be used without a login.
pub open spec fn no_open_slot() -> error::ErrorView {
    error::ErrorView::KeyNotFound(
        "no module-protected slots found; use --key-uri pkcs11:token=<label>... to address a token slot directly"@,
    )
}

/// The slot for a selector that names no token.
///
/// Without a login the first slot will do whose token needs none: all of them carry
/// the same module-protected keys.  With a login there must be one slot only, for
/// otherwise it is open which token is to be logged in to.
pub open spec fn slot_by_login(slots: Seq<Slot>, login: LoginMode) -> Result<
    u64,
    error::ErrorView,
> {
    match login {
        LoginMode::NoLogin => if first_open_slot(slots) < slots.len() {
            Ok(slots[first_open_slot(slots)].id)
        } else {
            Err(no_open_slot())
        },
        LoginMode::Pin(_) => if slots.len() == 1 {
            Ok(slots[0].id)
        } else {
            Err(error::ErrorView::AmbiguousKey { count: slots.len() })
        },
    }
}

/// Picks the slot for a selector that names no token.
pub fn smart_slot_selection(slots: &Vec<Slot>, login_mode: &LoginMode) -> (r: Result<u64, Error>)
    ensures
        match slot_by_login(slots@, *login_mode) {
            Ok(slot) => r matches Ok(s) && s == slot,
            Err(e) => error::fails_with(r, e),
        },
{
    match login_mode {
        LoginMode::NoLogin => {
            let mut i: usize = 0;
            while i < slots.len()
                invariant
                    login_mode is NoLogin,
                    i <= slots.len(),
                    forall|k: int| 0 <= k < i ==> !needs_no_login(#[trigger] slots@[k]),
                decreases slots.len() - i,
            {
                if let Some(info) = &slots[i].token {
                    if !info.login_required {
                        proof {
                            first_open_slot_is(slots@, i as int);
                        }
                        return Ok(slots[i].id);
                    }
                }
                i += 1;
            }
            proof {
                first_open_slot_is(slots@, i as int);
            }
            Err(
                Error::KeyNotFound(
                    "no module-protected slots found; use --key-uri pkcs11:token=<label>... to address a token slot directly".to_owned(),
                ),
            )
        },
        LoginMode::Pin(_) => {
            if slots.len() == 1 {
                Ok(slots[0].id)
            } else {
                Err(Error::AmbiguousKey { count: slots.len() })
            }
        },
    }
}

/// The slot that a selector and a login mode designate.
pub open spec fn chosen_slot(
    slots: Seq<Slot>,
    selector: SelectorView,
    login: LoginMode,
) -> Result<u64, error::ErrorView> {
    if slots.len() == 0 {
        Err(error::ErrorView::KeyNotFound("no initialised PKCS#11 slots found"@))
    } else {
        match selector {
            SelectorView::Uri(u) => match u.token_label {
                Some(label) => slot_by_label(slots, label),
                None => slot_by_login(slots, login),
            },
            _ => slot_by_login(slots, login),
        }
    }
}

/// Chooses the slot on which to open a session for `selector`.
///
/// A URI with a `token` attribute designates the slot whose token has that label.
/// Every other selector leaves the choice to the login mode.
pub fn open_session(slots: &Vec<Slot>, selector: &KeySelector, login_mode: &LoginMode) -> (r: Result<
    u64,
    Error,
>)
    ensures
        match chosen_slot(slots@, selector@, *login_mode) {
            Ok(slot) => r matches Ok(s) && s == slot,
            Err(e) => error::fails_with(r, e),
        },
{
    if slots.len() == 0 {
        return Err(Error::KeyNotFound("no initialised PKCS#11 slots found".to_owned()));
    }
    match selector {
        KeySelector::Uri(u) => {
            if u.token_label.is_some() {
                find_slot_by_uri(slots, u)
            } else {
                smart_slot_selection(slots, login_mode)
            }
        },
        _ => smart_slot_selection(slots, login_mode),
    }
}

// ---------------------------------------------------------------------------
// Keys
// ---------------------------------------------------------------------------

/// The attribute by which a label is matched.
pub open spec fn label_attribute(label: Seq<char>) -> token::AttributeView {
    token::AttributeView::Bytes(AttributeType::Label, text::utf8(label))
}

/// The attribute by which an identifier is matched.
pub open spec fn id_attribute(id: Seq<u8>) -> token::AttributeView {
    token::AttributeView::Bytes(AttributeType::Id, id)
}

/// The template that finds the private signing keys that a selector designates.
pub open spec fn private_key_template(selector: SelectorView) -> Seq<token::AttributeView> {
    let base = seq![
        token::AttributeView::Class(ObjectClass::PrivateKey),
        token::AttributeView::Sign(true),
    ];
    match selector {
        SelectorView::Label(l) => base.push(label_attribute(l)),
        SelectorView::Id(i) => base.push(id_attribute(i)),
        SelectorView::Uri(u) => match (u.object_label, u.key_id) {
            (Some(l), Some(i)) => base.push(label_attribute(l)).push(id_attribute(i)),
            (Some(l), None) => base.push(label_attribute(l)),
            (None, Some(i)) => base.push(id_attribute(i)),
            (None, None) => base,
        },
        SelectorView::Auto => base,
    }
}

/// The template that finds the private signing keys that `selector` designates.
pub fn find_private_keys(selector: &KeySelector) -> (template: Vec<Attribute>)
    ensures
        token::attribute_views(template@) == private_key_template(selector@),
{
    let mut template: Vec<Attribute> = Vec::new();
    template.push(Attribute::Class(ObjectClass::PrivateKey));
    template.push(Attribute::Sign(true));
    match selector {
        KeySelector::Label(l) => {
            template.push(Attribute::Bytes(AttributeType::Label, text::bytes_of(l.as_str())));
        },
        KeySelector::Id(i) => {
            template.push(
                Attribute::Bytes(AttributeType::Id, vstd::slice::slice_to_vec(i.as_slice())),
            );
        },
        KeySelector::Uri(u) => {
            if let Some(l) = &u.object_label {
                template.push(Attribute::Bytes(AttributeType::Label, text::bytes_of(l.as_str())));
            }
            if let Some(i) = &u.key_id {
                template.push(
                    Attribute::Bytes(AttributeType::Id, vstd::slice::slice_to_vec(i.as_slice())),
                );
            }
        },
        KeySelector::Auto => {},
    }
    assert(token::attribute_views(template@) =~= private_key_template(selector@));
    template
}

/// The one key among those that were found for a selector.
pub open spec fn single_key(handles: Seq<u64>, selector: SelectorView) -> Result<
    u64,
    error::ErrorView,
> {
    if handles.len() == 0 {
        Err(
            error::ErrorView::KeyNotFound(
                "no signing key matched selector "@ + selector_text(selector),
            ),
        )
    } else if handles.len() == 1 {
        Ok(handles[0])
    } else {
        Err(error::ErrorView::AmbiguousKey { count: handles.len() })
    }
}

/// The one key among `handles`, which were found for `selector`.
pub fn resolve_single_key(handles: &Vec<u64>, selector: &KeySelector) -> (r: Result<u64, Error>)
    ensures
        match single_key(handles@, selector@) {
            Ok(handle) => r matches Ok(h) && h == handle,
            Err(e) => error::fails_with(r, e),
        },
{
    if handles.len() == 0 {
        Err(
            Error::KeyNotFound(
                text::join2("no signing key matched selector ", selector.text().as_str()),
            ),
        )
    } else if handles.len() == 1 {
        Ok(handles[0])
    } else {
        Err(Error::AmbiguousKey { count: handles.len() })
    }
}

/// What is said of an attribute that an object does not have.
pub open spec fn missing_attribute(t: AttributeType) -> error::ErrorView {
    error::ErrorView::KeyNotFound(
        "attribute "@ + token::attribute_type_text(t) + " not present on key"@,
    )
}

/// The attribute that was asked for, out of the answer `attrs`.
pub fn get_attribute(attrs: &Vec<Attribute>, attr_type: AttributeType) -> (r: Result<
    &Attribute,
    Error,
>)
    ensures
        if attrs@.len() == 0 {
            error::fails_with(r, missing_attribute(attr_type))
        } else {
            r matches Ok(a) && *a == attrs@[0]
        },
{
    if attrs.len() == 0 {
        Err(
            Error::KeyNotFound(
                text::join3("attribute ", attr_type.text().as_str(), " not present on key"),
            ),
        )
    } else {
        Ok(&attrs[0])
    }
}

/// The type of a key, from the answer `attrs` to a question for that attribute.
pub fn key_type(attrs: &Vec<Attribute>) -> (r: Result<KeyType, Error>)
    requires
        attrs@.len() > 0 ==> attrs@[0] is KeyType,
    ensures
        if attrs@.len() == 0 {
            error::fails_with(r, missing_attribute(AttributeType::KeyType))
        } else {
            r matches Ok(kt) && attrs@[0] == Attribute::KeyType(kt)
        },
{
    match get_attribute(attrs, AttributeType::KeyType) {
        Ok(Attribute::KeyType(kt)) => Ok(*kt),
        Ok(_) => Ok(KeyType::Other(0)),
        Err(e) => Err(e),
    }
}

// ---------------------------------------------------------------------------
// Laws
// ---------------------------------------------------------------------------

/// A slot is chosen only if it is one of those that are there.
pub proof fn chosen_slot_exists(slots: Seq<Slot>, selector: SelectorView, login: LoginMode)
    requires
        chosen_slot(slots, selector, login) is Ok,
    ensures
        exists|i: int|
            0 <= i < slots.len() && (#[trigger] slots[i]).id == chosen_slot(
                slots,
                selector,
                login,
            )->Ok_0,
{
    match selector {
        SelectorView::Uri(u) => match u.token_label {
            Some(label) => {
                labelled_slots_exist(slots, label, 0);
            },
            None => {
                slot_by_login_exists(slots, login);
            },
        },
        _ => {
            slot_by_login_exists(slots, login);
        },
    }
}

proof fn slot_by_login_exists(slots: Seq<Slot>, login: LoginMode)
    requires
        slot_by_login(slots, login) is Ok,
    ensures
        exists|i: int|
            0 <= i < slots.len() && (#[trigger] slots[i]).id == slot_by_login(slots, login)->Ok_0,
{
    first_open_slot_bounds(slots);
    match login {
        LoginMode::NoLogin => {
            assert(slots[first_open_slot(slots)].id == slot_by_login(slots, login)->Ok_0);
        },
        LoginMode::Pin(_) => {
            assert(slots[0].id == slot_by_login(slots, login)->Ok_0);
        },
    }
}

proof fn first_open_slot_bounds(slots: Seq<Slot>)
    ensures
        0 <= first_open_slot(slots) <= slots.len(),
        first_open_slot(slots) < slots.len() ==> needs_no_login(slots[first_open_slot(slots)]),
    decreases slots.len(),
{
    if slots.len() > 0 && !needs_no_login(slots[0]) {
        first_open_slot_bounds(slots.drop_first());
    }
}

proof fn labelled_slots_exist(slots: Seq<Slot>, label: Seq<char>, k: int)
    requires
        0 <= k < labelled_slots(slots, label).len(),
    ensures
        exists|i: int|
            0 <= i < slots.len() && (#[trigger] slots[i]).id == labelled_slots(slots, label)[k]
                && carries_label(slots[i], label),
    decreases slots.len(),
{
    let rest = labelled_slots(slots.drop_last(), label);
    if k < rest.len() {
        labelled_slots_exist(slots.drop_last(), label, k);
        let i = choose|i: int|
            0 <= i < slots.drop_last().len() && (#[trigger] slots.drop_last()[i]).id == rest[k]
                && carries_label(slots.drop_last()[i], label);
        assert(slots[i] == slots.drop_last()[i]);
    } else {
        assert(slots[slots.len() - 1] == slots.last());
    }
}

/// Without a login, no slot is chosen whose token requires one, unless the selector
/// names that token.
pub proof fn no_login_slot_needs_none(slots: Seq<Slot>, selector: SelectorView)
    requires
        chosen_slot(slots, selector, LoginMode::NoLogin) is Ok,
        selector matches SelectorView::Uri(u) ==> u.token_label is None,
    ensures
        exists|i: int|
            0 <= i < slots.len() && (#[trigger] slots[i]).id == chosen_slot(
                slots,
                selector,
                LoginMode::NoLogin,
            )->Ok_0 && needs_no_login(slots[i]),
{
    first_open_slot_bounds(slots);
    assert(slots[first_open_slot(slots)].id == slot_by_login(slots, LoginMode::NoLogin)->Ok_0);
}

/// With a login and no named token, a slot is chosen exactly if it is the only one.
pub proof fn login_needs_a_single_slot(slots: Seq<Slot>, selector: SelectorView, pin: String)
    requires
        selector matches SelectorView::Uri(u) ==> u.token_label is None,
    ensures
        chosen_slot(slots, selector, LoginMode::Pin(pin)) is Ok <==> slots.len() == 1,
{
}

/// A key is used exactly if it is the only one that was found.
pub proof fn key_must_be_unique(handles: Seq<u64>, selector: SelectorView)
    ensures
        single_key(handles, selector) is Ok <==> handles.len() == 1,
        single_key(handles, selector) matches Ok(h) ==> handles == seq![h],
{
    if handles.len() == 1 {
        assert(handles =~= seq![handles[0]]);
    }
}

/// The token in the slot at `i` has the label, white space around either aside, and that in
/// no other slot has.
pub open spec fn is_only_labelled(slots: Seq<Slot>, i: int, label: Seq<char>) -> bool {
    &&& 0 <= i < slots.len()
    &&& slots[i].token matches Some(info) && text::trimmed(info.label@) == text::trimmed(label)
    &&& forall|k: int|
        0 <= k < slots.len() && k != i ==> !((#[trigger] slots[k]).token matches Some(info)
            && text::trimmed(info.label@) == text::trimmed(label))
}

/// A URI that names a token designates the slot of that token, with a login and without: a
/// slot is chosen exactly if one token and no other has the label, and it is the slot of
/// that token.  Without such a token, and with several, the error says which it is.
pub proof fn token_labels_are_honoured(
    slots: Seq<Slot>,
    u: uri::UriView,
    label: Seq<char>,
    login: LoginMode,
)
    requires
        u.token_label == Some(label),
    ensures
        forall|i: int| #[trigger]
            is_only_labelled(slots, i, label) ==> chosen_slot(slots, SelectorView::Uri(u), login)
                == Ok::<u64, error::ErrorView>(slots[i].id),
        chosen_slot(slots, SelectorView::Uri(u), login) matches Ok(slot) ==> exists|i: int|
            #![trigger slots[i]]
            is_only_labelled(slots, i, label) && slots[i].id == slot,
        chosen_slot(slots, SelectorView::Uri(u), login) is Ok <==> exists|i: int| #[trigger]
            is_only_labelled(slots, i, label),
        chosen_slot(slots, SelectorView::Uri(u), login) matches Err(error::ErrorView::KeyNotFound(_))
            <==> forall|k: int|
            0 <= k < slots.len() ==> !((#[trigger] slots[k]).token matches Some(info)
                && text::trimmed(info.label@) == text::trimmed(label)),
        chosen_slot(slots, SelectorView::Uri(u), login) matches Err(
            error::ErrorView::AmbiguousKey { count },
        ) ==> count >= 2 && count == slots.filter(
            |s: Slot|
                s.token matches Some(info) && text::trimmed(info.label@) == text::trimmed(label),
        ).len(),
{
    labelled_slots_are_those(slots, label);
    labelled_slots_count(slots, label);
    if chosen_slot(slots, SelectorView::Uri(u), login) is Ok {
        let i = choose|i: int|
            #![trigger slots[i]]
            is_only_labelled(slots, i, label) && labelled_slots(slots, label) == seq![slots[i].id];
        assert(slots[i].id == slots[i].id);
    }
    if exists|i: int| #[trigger] is_only_labelled(slots, i, label) {
        let i = choose|i: int| #[trigger] is_only_labelled(slots, i, label);
        assert(labelled_slots(slots, label) == seq![slots[i].id]);
        assert(!(forall|k: int|
            0 <= k < slots.len() ==> !carries_label(#[trigger] slots[k], label)));
    }
    if chosen_slot(slots, SelectorView::Uri(u), login) matches Err(error::ErrorView::KeyNotFound(_)) {
        assert forall|k: int| 0 <= k < slots.len() implies !((#[trigger] slots[k]).token matches Some(
            info,
        ) && text::trimmed(info.label@) == text::trimmed(label)) by {
            assert(!carries_label(slots[k], label));
        }
    }
    if forall|k: int|
        0 <= k < slots.len() ==> !((#[trigger] slots[k]).token matches Some(info) && text::trimmed(
            info.label@,
        ) == text::trimmed(label)) {
        assert forall|k: int| 0 <= k < slots.len() implies !carries_label(#[trigger] slots[k], label) by {}
    }
}

proof fn labelled_slots_count(slots: Seq<Slot>, label: Seq<char>)
    ensures
        labelled_slots(slots, label).len() == slots.filter(
            |s: Slot|
                s.token matches Some(info) && text::trimmed(info.label@) == text::trimmed(label),
        ).len(),
    decreases slots.len(),
{
    reveal(Seq::filter);
    if slots.len() > 0 {
        labelled_slots_count(slots.drop_last(), label);
    }
}

proof fn labelled_slots_are_those(slots: Seq<Slot>, label: Seq<char>)
    ensures
        labelled_slots(slots, label).len() == 0 <==> forall|k: int|
            0 <= k < slots.len() ==> !carries_label(#[trigger] slots[k], label),
        labelled_slots(slots, label).len() == 1 <==> exists|i: int| #[trigger]
            is_only_labelled(slots, i, label),
        forall|i: int| #[trigger]
            is_only_labelled(slots, i, label) ==> labelled_slots(slots, label) == seq![slots[i].id],
    decreases slots.len(),
{
    if slots.len() > 0 {
        let rest = slots.drop_last();
        let n = slots.len() - 1;
        labelled_slots_are_those(rest, label);
        assert forall|k: int| 0 <= k < n implies rest[k] == #[trigger] slots[k] by {}
        if carries_label(slots.last(), label) {
            assert(carries_label(slots[n], label));
            if labelled_slots(rest, label).len() == 0 {
                assert(labelled_slots(slots, label) =~= seq![slots[n].id]);
                assert forall|k: int| 0 <= k < slots.len() && k != n implies !((
                #[trigger] slots[k]).token matches Some(info) && text::trimmed(info.label@)
                    == text::trimmed(label)) by {
                    assert(!carries_label(rest[k], label));
                }
                assert(is_only_labelled(slots, n, label));
                assert forall|i: int| #[trigger] is_only_labelled(slots, i, label) implies i == n by {
                    if i != n {
                        assert(!carries_label(slots[n], label));
                    }
                }
            } else {
                let k = choose|k: int| 0 <= k < rest.len() && carries_label(#[trigger] rest[k], label);
                assert(carries_label(slots[k], label));
                assert forall|i: int| !(#[trigger] is_only_labelled(slots, i, label)) by {
                    if is_only_labelled(slots, i, label) {
                        if i == n {
                            assert(!carries_label(slots[k], label));
                        } else {
                            assert(!carries_label(slots[n], label));
                        }
                    }
                }
            }
        } else {
            assert forall|i: int|
                is_only_labelled(rest, i, label) <==> #[trigger] is_only_labelled(slots, i, label) by {
                if is_only_labelled(rest, i, label) {
                    assert forall|k: int| 0 <= k < slots.len() && k != i implies !((
                    #[trigger] slots[k]).token matches Some(info) && text::trimmed(info.label@)
                        == text::trimmed(label)) by {
                        if k < n {
                            assert(rest[k] == slots[k]);
                        }
                    }
                }
                if is_only_labelled(slots, i, label) {
                    assert(i != n);
                    assert forall|k: int| 0 <= k < rest.len() && k != i implies !((
                    #[trigger] rest[k]).token matches Some(info) && text::trimmed(info.label@)
                        == text::trimmed(label)) by {
                        assert(rest[k] == slots[k]);
                    }
                }
            }
            if labelled_slots(rest, label).len() == 1 {
                let i = choose|i: int| #[trigger] is_only_labelled(rest, i, label);
                assert(is_only_labelled(slots, i, label));
            }
            assert forall|i: int| #[trigger] is_only_labelled(slots, i, label) implies labelled_slots(
                slots,
                label,
            ) == seq![slots[i].id] by {
                assert(is_only_labelled(rest, i, label));
            }
            if labelled_slots(rest, label).len() != 0 {
                let k = choose|k: int| 0 <= k < rest.len() && carries_label(#[trigger] rest[k], label);
                assert(carries_label(slots[k], label));
            }
        }
    }
}

/// The slot at `i` is the first one with a token that needs no login.
pub open spec fn is_first_open(slots: Seq<Slot>, i: int) -> bool {
    &&& 0 <= i < slots.len()
    &&& slots[i].token matches Some(info) && !info.login_required
    &&& forall|k: int|
        0 <= k < i ==> !((#[trigger] slots[k]).token matches Some(info) && !info.login_required)
}

/// Without a login and without a named token the first slot is chosen whose token needs no
/// login, and none exactly if there is no such slot.
pub proof fn first_open_slot_is_chosen(slots: Seq<Slot>, selector: SelectorView)
    requires
        selector matches SelectorView::Uri(u) ==> u.token_label is None,
    ensures
        forall|i: int| #[trigger]
            is_first_open(slots, i) ==> chosen_slot(slots, selector, LoginMode::NoLogin) == Ok::<
                u64,
                error::ErrorView,
            >(slots[i].id),
        chosen_slot(slots, selector, LoginMode::NoLogin) is Ok <==> exists|i: int| #[trigger]
            is_first_open(slots, i),
{
    first_open_slot_bounds(slots);
    assert forall|i: int| #[trigger] is_first_open(slots, i) implies chosen_slot(
        slots,
        selector,
        LoginMode::NoLogin,
    ) == Ok::<u64, error::ErrorView>(slots[i].id) by {
        assert forall|k: int| 0 <= k < i implies !needs_no_login(#[trigger] slots[k]) by {}
        first_open_slot_is(slots, i);
    }
    let i = first_open_slot(slots);
    if chosen_slot(slots, selector, LoginMode::NoLogin) is Ok {
        first_open_slot_is_first(slots);
        assert forall|k: int| 0 <= k < i implies !((#[trigger] slots[k]).token matches Some(info)
            && !info.login_required) by {
            assert(!needs_no_login(slots[k]));
        }
        assert(is_first_open(slots, i));
    }
}

proof fn first_open_slot_is_first(slots: Seq<Slot>)
    ensures
        forall|k: int|
            0 <= k < first_open_slot(slots) && k < slots.len() ==> !needs_no_login(
                #[trigger] slots[k],
            ),
    decreases slots.len(),
{
    if slots.len() > 0 && !needs_no_login(slots[0]) {
        let rest = slots.drop_first();
        first_open_slot_is_first(rest);
        assert forall|k: int| 0 <= k < first_open_slot(slots) && k < slots.len() implies !needs_no_login(
            #[trigger] slots[k],
        ) by {
            if k > 0 {
                assert(rest[k - 1] == slots[k]);
            }
        }
    }
}

/// With a login and without a named token the only slot is chosen; with several, the error
/// says how many there are.
pub proof fn only_slot_is_chosen(slots: Seq<Slot>, selector: SelectorView, pin: String)
    requires
        selector matches SelectorView::Uri(u) ==> u.token_label is None,
    ensures
        slots.len() == 1 ==> chosen_slot(slots, selector, LoginMode::Pin(pin)) == Ok::<
            u64,
            error::ErrorView,
        >(slots[0].id),
        slots.len() > 1 ==> chosen_slot(slots, selector, LoginMode::Pin(pin)) == Err::<
            u64,
            error::ErrorView,
        >(error::ErrorView::AmbiguousKey { count: slots.len() }),
        slots.len() == 0 ==> chosen_slot(slots, selector, LoginMode::Pin(pin)) matches Err(
            error::ErrorView::KeyNotFound(_),
        ),
{
}

/// The label by which a selector designates a key, if it does.
pub open spec fn wanted_label(selector: SelectorView) -> Option<Seq<char>> {
    match selector {
        SelectorView::Label(l) => Some(l),
        SelectorView::Uri(u) => u.object_label,
        _ => None,
    }
}

/// The identifier by which a selector designates a key, if it does.
pub open spec fn wanted_id(selector: SelectorView) -> Option<Seq<u8>> {
    match selector {
        SelectorView::Id(i) => Some(i),
        SelectorView::Uri(u) => u.key_id,
        _ => None,
    }
}

/// Only private keys that can sign are looked for, by the label and by the identifier that
/// the selector states, both where it states both, and by nothing else.
pub proof fn searches_are_for_the_selector(selector: SelectorView, a: token::AttributeView)
    ensures
        private_key_template(selector).contains(a) <==> {
            ||| a == token::AttributeView::Class(ObjectClass::PrivateKey)
            ||| a == token::AttributeView::Sign(true)
            ||| wanted_label(selector) matches Some(l) && a == token::AttributeView::Bytes(
                AttributeType::Label,
                vstd::utf8::encode_utf8(l),
            )
            ||| wanted_id(selector) matches Some(i) && a == token::AttributeView::Bytes(
                AttributeType::Id,
                i,
            )
        },
{
    let t = private_key_template(selector);
    assert(t[0] == token::AttributeView::Class(ObjectClass::PrivateKey));
    assert(t[1] == token::AttributeView::Sign(true));
    if let Some(l) = wanted_label(selector) {
        assert(t[2] == label_attribute(l));
    }
    if let Some(i) = wanted_id(selector) {
        assert(t[t.len() - 1] == id_attribute(i));
    }
    if t.contains(a) {
        let k = choose|k: int| 0 <= k < t.len() && t[k] == a;
        assert(k == 0 || k == 1 || k == 2 || k == 3);
    }
}

/// Where no key was found, and where several were, the error says which it is, and how many
/// there are.
pub proof fn failed_searches_are_told_apart(handles: Seq<u64>, selector: SelectorView)
    ensures
        single_key(handles, selector) matches Err(error::ErrorView::KeyNotFound(_)) <==> handles.len()
            == 0,
        handles.len() > 1 ==> single_key(handles, selector) == Err::<u64, error::ErrorView>(
            error::ErrorView::AmbiguousKey { count: handles.len() },
        ),
{
}

} // verus!
