//! The listing of the signing keys on all tokens.

use vstd::prelude::*;

use crate::cert;
use crate::error;
use crate::error::Error;
use crate::hexcode;
use crate::session::TokenInfo;
use crate::text;
use crate::token;
use crate::token::{Attribute, AttributeType, KeyType};

verus! {

/// What was read of a signing key: the answers to the questions for its label, its
/// identifier and its type, where there were answers.
#[derive(Debug)]
pub struct KeyReport {
    pub label: Option<Vec<Attribute>>,
    pub id: Option<Vec<Attribute>>,
    pub key_type: Option<Vec<Attribute>>,
}

/// What was found on a token.
#[derive(Debug)]
pub enum TokenReport {
    /// No session could be opened.
    NoSession(String),
    /// The search for keys failed.
    NoSearch(String),
    /// These signing keys were found.
    Keys(Vec<KeyReport>),
}

/// What was found in a slot: its token, where there is one, and what is on it.
#[derive(Debug)]
pub struct SlotReport {
    pub id: u64,
    pub token: Option<(TokenInfo, TokenReport)>,
}

/// The lines of a listing, and the error that ended it early, if one did.
#[derive(Debug)]
pub struct Listing {
    pub lines: Vec<String>,
    pub failure: Option<Error>,
}

// ---------------------------------------------------------------------------
// Keys
// ---------------------------------------------------------------------------

/// The mathematical content of an optional answer.
pub open spec fn answer_views(attrs: Option<Vec<Attribute>>) -> Seq<token::AttributeView> {
    match attrs {
        Some(v) => token::attribute_views(v@),
        None => Seq::empty(),
    }
}

/// The label that an attribute states, if it is one that is UTF-8.
pub open spec fn label_in(a: token::AttributeView) -> Option<Seq<char>> {
    match a {
        token::AttributeView::Bytes(t, v) => if t == AttributeType::Label && vstd::utf8::valid_utf8(
            v,
        ) {
            Some(vstd::utf8::decode_utf8(v))
        } else {
            None
        },
        _ => None,
    }
}

/// The identifier that an attribute states in hexadecimal notation, unless it is empty.
pub open spec fn id_in(a: token::AttributeView) -> Option<Seq<char>> {
    match a {
        token::AttributeView::Bytes(t, v) => if t == AttributeType::Id && v.len() > 0 {
            Some(hexcode::hex_notation(v))
        } else {
            None
        },
        _ => None,
    }
}

/// The name of the key type that an attribute states.
pub open spec fn type_in(a: token::AttributeView) -> Option<Seq<char>> {
    match a {
        token::AttributeView::KeyType(kt) => Some(token::listed_key_type(kt)),
        _ => None,
    }
}

/// Which part of a key an answer is about.
#[derive(Debug, Clone, Copy, PartialEq, Eq, Structural)]
pub enum Part {
    Label,
    Id,
    Type,
}

/// What an attribute states of a part of a key.
pub open spec fn part_in(a: token::AttributeView, part: Part) -> Option<Seq<char>> {
    match part {
        Part::Label => label_in(a),
        Part::Id => id_in(a),
        Part::Type => type_in(a),
    }
}

/// What the first attribute states that states anything of a part of a key.
pub open spec fn first_part(attrs: Seq<token::AttributeView>, part: Part) -> Option<Seq<char>>
    decreases attrs.len(),
{
    if attrs.len() == 0 {
        None
    } else if part_in(attrs[0], part) is Some {
        part_in(attrs[0], part)
    } else {
        first_part(attrs.drop_first(), part)
    }
}

/// What stands for a part of a key that nothing is known of.
pub open spec fn unknown_part(part: Part) -> Seq<char> {
    match part {
        Part::Label => "<no label>"@,
        Part::Id => "<no id>"@,
        Part::Type => "?"@,
    }
}

/// What the listing says of a part of a key.
pub open spec fn listed_part(attrs: Option<Vec<Attribute>>, part: Part) -> Seq<char> {
    match first_part(answer_views(attrs), part) {
        Some(t) => t,
        None => unknown_part(part),
    }
}

/// The line for a key.
pub open spec fn key_text(k: KeyReport) -> Seq<char> {
    "  label="@ + text::debug_text(listed_part(k.label, Part::Label)) + "  id="@ + listed_part(
        k.id,
        Part::Id,
    ) + "  type="@ + listed_part(k.key_type, Part::Type)
}

fn read_part(a: &Attribute, part: Part) -> (r: Option<String>)
    ensures
        match part_in(a@, part) {
            Some(t) => r matches Some(s) && s@ == t,
            None => r is None,
        },
{
    match a {
        Attribute::Bytes(t, v) => {
            if part == Part::Label && *t == AttributeType::Label {
                match text::utf8_string(vstd::slice::slice_to_vec(v.as_slice())) {
                    Ok(s) => Some(s),
                    Err(_) => None,
                }
            } else if part == Part::Id && *t == AttributeType::Id && v.len() > 0 {
                Some(hexcode::encode(v.as_slice()))
            } else {
                None
            }
        },
        Attribute::KeyType(kt) => {
            if part == Part::Type {
                Some(token::key_type_name(*kt))
            } else {
                None
            }
        },
        _ => None,
    }
}

fn list_part(attrs: &Option<Vec<Attribute>>, part: Part) -> (out: String)
    ensures
        out@ == listed_part(*attrs, part),
{
    let ghost all = answer_views(*attrs);
    if let Some(v) = attrs {
        let mut i: usize = 0;
        assert(all.skip(0) =~= all);
        while i < v.len()
            invariant
                i <= v.len(),
                all == token::attribute_views(v@),
                *attrs == Some(*v),
                all == answer_views(*attrs),
                first_part(all, part) == first_part(all.skip(i as int), part),
            decreases v.len() - i,
        {
            assert(all.skip(i as int)[0] == v@[i as int]@);
            assert(all.skip(i as int).drop_first() =~= all.skip(i + 1));
            match read_part(&v[i], part) {
                Some(s) => {
                    return s;
                },
                None => {},
            }
            i += 1;
        }
        assert(all.skip(i as int) =~= Seq::empty());
    }
    match part {
        Part::Label => "<no label>".to_owned(),
        Part::Id => "<no id>".to_owned(),
        Part::Type => "?".to_owned(),
    }
}

/// The line for a key.
pub fn key_line(k: &KeyReport) -> (out: String)
    ensures
        out@ == key_text(*k),
{
    let label = list_part(&k.label, Part::Label);
    let mut out = text::join3("  label=", text::debug_str(label.as_str()).as_str(), "  id=");
    out.append(list_part(&k.id, Part::Id).as_str());
    out.append("  type=");
    out.append(list_part(&k.key_type, Part::Type).as_str());
    out
}

// ---------------------------------------------------------------------------
// Slots
// ---------------------------------------------------------------------------

/// How the keys of a token are protected.
pub open spec fn protection(info: TokenInfo) -> Seq<char> {
    if info.login_required {
        "token-protected (OCS or softcard)"@
    } else {
        "module-protected"@
    }
}

/// The line for a slot with a token.
pub open spec fn slot_text(id: u64, info: TokenInfo) -> Seq<char> {
    "Slot "@ + text::decimal_text(id as nat) + "  token: "@ + text::trimmed(info.label@) + "  ["@
        + protection(info) + "]"@
}

/// The lines for the keys of a token.
pub open spec fn key_texts(keys: Seq<KeyReport>) -> Seq<Seq<char>> {
    Seq::new(keys.len(), |i: int| key_text(keys[i]))
}

/// The lines for a slot.  Slots without a token are listed only where all slots are.
pub open spec fn slot_texts(r: SlotReport, all_slots: bool) -> Seq<Seq<char>> {
    match r.token {
        None => if all_slots {
            seq!["Slot "@ + text::decimal_text(r.id as nat) + "  [no token present]"@]
        } else {
            Seq::empty()
        },
        Some((info, report)) => seq![slot_text(r.id, info)] + match report {
            TokenReport::NoSession(e) => seq!["  (could not open session: "@ + e@ + ")"@],
            TokenReport::NoSearch(_) => Seq::empty(),
            TokenReport::Keys(keys) => if keys@.len() == 0 {
                seq!["  (no signing keys)"@]
            } else {
                key_texts(keys@)
            },
        },
    }
}

/// Whether the search for keys in a slot failed, which ends the listing.
pub open spec fn search_failed(r: SlotReport) -> bool {
    r.token matches Some((info, report)) && report is NoSearch
}

/// The lines for the slots, up to the first one in which the search failed.
pub open spec fn listed(slots: Seq<SlotReport>, all_slots: bool) -> Seq<Seq<char>>
    decreases slots.len(),
{
    if slots.len() == 0 {
        Seq::empty()
    } else if search_failed(slots[0]) {
        slot_texts(slots[0], all_slots)
    } else {
        slot_texts(slots[0], all_slots) + listed(slots.drop_first(), all_slots)
    }
}

/// The error that ends the listing, if one does.
pub open spec fn listing_failure(slots: Seq<SlotReport>) -> Option<error::ErrorView>
    decreases slots.len(),
{
    if slots.len() == 0 {
        None
    } else if search_failed(slots[0]) {
        Some(error::ErrorView::Other((slots[0].token->0).1->NoSearch_0@))
    } else {
        listing_failure(slots.drop_first())
    }
}

/// The lines of a listing.
pub open spec fn listing_texts(slots: Seq<SlotReport>, all_slots: bool) -> Seq<Seq<char>> {
    if slots.len() == 0 {
        seq!["No slots found."@]
    } else {
        listed(slots, all_slots)
    }
}

fn slot_line(id: u64, info: &TokenInfo) -> (out: String)
    ensures
        out@ == slot_text(id, *info),
{
    let mut out = text::join3("Slot ", text::decimal(id).as_str(), "  token: ");
    out.append(text::trim(info.label.as_str()).as_str());
    out.append("  [");
    if info.login_required {
        out.append("token-protected (OCS or softcard)");
    } else {
        out.append("module-protected");
    }
    out.append("]");
    out
}

/// Adds the lines for a slot; the error that ends the listing is handed back.
fn list_slot(r: &SlotReport, all_slots: bool, lines: &mut Vec<String>) -> (failure: Option<Error>)
    ensures
        cert::string_views(final(lines)@) == cert::string_views(old(lines)@) + slot_texts(
            *r,
            all_slots,
        ),
        if search_failed(*r) {
            failure matches Some(e) && e@ == error::ErrorView::Other((r.token->0).1->NoSearch_0@)
        } else {
            failure is None
        },
{
    let ghost before = cert::string_views(lines@);
    match &r.token {
        None => {
            if all_slots {
                lines.push(
                    text::join3("Slot ", text::decimal(r.id).as_str(), "  [no token present]"),
                );
            }
            assert(cert::string_views(lines@) =~= before + slot_texts(*r, all_slots));
            None
        },
        Some((info, report)) => {
            lines.push(slot_line(r.id, info));
            let ghost head = before.push(slot_text(r.id, *info));
            assert(cert::string_views(lines@) =~= head);
            match report {
                TokenReport::NoSession(e) => {
                    lines.push(text::join3("  (could not open session: ", e.as_str(), ")"));
                    assert(cert::string_views(lines@) =~= before + slot_texts(*r, all_slots));
                    None
                },
                TokenReport::NoSearch(e) => {
                    assert(cert::string_views(lines@) =~= before + slot_texts(*r, all_slots));
                    Some(Error::Other(e.clone()))
                },
                TokenReport::Keys(keys) => {
                    if keys.len() == 0 {
                        lines.push("  (no signing keys)".to_owned());
                    }
                    let mut i: usize = 0;
                    assert(keys@.len() > 0 ==> head + key_texts(keys@).take(0) =~= head);
                    while i < keys.len()
                        invariant
                            i <= keys.len(),
                            keys@.len() > 0 ==> cert::string_views(lines@) == head + key_texts(
                                keys@,
                            ).take(i as int),
                            keys@.len() == 0 ==> cert::string_views(lines@) == head.push(
                                "  (no signing keys)"@,
                            ),
                        decreases keys.len() - i,
                    {
                        let ghost so_far = cert::string_views(lines@);
                        lines.push(key_line(&keys[i]));
                        assert(cert::string_views(lines@) =~= so_far.push(
                            key_texts(keys@)[i as int],
                        ));
                        assert(head + key_texts(keys@).take(i + 1) =~= (head + key_texts(
                            keys@,
                        ).take(i as int)).push(key_texts(keys@)[i as int]));
                        i += 1;
                    }
                    assert(key_texts(keys@).take(i as int) =~= key_texts(keys@));
                    assert(cert::string_views(lines@) =~= before + slot_texts(*r, all_slots));
                    None
                },
            }
        },
    }
}

/// The listing of the slots `slots`; with `all_slots` those without a token are listed
/// too.
pub fn cmd_list_keys(slots: &Vec<SlotReport>, all_slots: bool) -> (l: Listing)
    ensures
        cert::string_views(l.lines@) == listing_texts(slots@, all_slots),
        match listing_failure(slots@) {
            Some(e) => l.failure matches Some(x) && x@ == e,
            None => l.failure is None,
        },
{
    let mut lines: Vec<String> = Vec::new();
    if slots.len() == 0 {
        lines.push("No slots found.".to_owned());
        assert(cert::string_views(lines@) =~= seq!["No slots found."@]);
        return Listing { lines, failure: None };
    }
    let mut i: usize = 0;
    assert(slots@.skip(0) =~= slots@);
    assert(cert::string_views(lines@) + listed(slots@, all_slots) =~= listed(slots@, all_slots));
    while i < slots.len()
        invariant
            i <= slots.len(),
            slots@.len() > 0,
            cert::string_views(lines@) + listed(slots@.skip(i as int), all_slots) == listed(
                slots@,
                all_slots,
            ),
            listing_failure(slots@.skip(i as int)) == listing_failure(slots@),
        decreases slots.len() - i,
    {
        let ghost so_far = cert::string_views(lines@);
        let ghost rest = slots@.skip(i as int);
        assert(rest[0] == slots@[i as int]);
        assert(rest.drop_first() =~= slots@.skip(i + 1));
        let failure = list_slot(&slots[i], all_slots, &mut lines);
        if failure.is_some() {
            return Listing { lines, failure };
        }
        assert((so_far + slot_texts(rest[0], all_slots)) + listed(rest.drop_first(), all_slots)
            =~= so_far + (slot_texts(rest[0], all_slots) + listed(rest.drop_first(), all_slots)));
        i += 1;
    }
    assert(slots@.skip(i as int) =~= Seq::empty());
    assert(cert::string_views(lines@) + Seq::empty() =~= cert::string_views(lines@));
    Listing { lines, failure: None }
}

// ---------------------------------------------------------------------------
// Laws
// ---------------------------------------------------------------------------

/// The attribute at `i` is the first one with an identifier that is not empty, and states
/// the identifier `id`.
pub open spec fn states_id(attrs: Seq<token::AttributeView>, i: int, id: Seq<u8>) -> bool {
    &&& 0 <= i < attrs.len()
    &&& id.len() > 0
    &&& attrs[i] == token::AttributeView::Bytes(AttributeType::Id, id)
    &&& forall|k: int|
        0 <= k < i ==> !(#[trigger] attrs[k] matches token::AttributeView::Bytes(t, v) && t
            == AttributeType::Id && v.len() > 0)
}

/// The attribute at `i` is the first label that is UTF-8, and has the bytes `label`.
pub open spec fn states_label(attrs: Seq<token::AttributeView>, i: int, label: Seq<u8>) -> bool {
    &&& 0 <= i < attrs.len()
    &&& vstd::utf8::valid_utf8(label)
    &&& attrs[i] == token::AttributeView::Bytes(AttributeType::Label, label)
    &&& forall|k: int|
        0 <= k < i ==> !(#[trigger] attrs[k] matches token::AttributeView::Bytes(t, v) && t
            == AttributeType::Label && vstd::utf8::valid_utf8(v))
}

/// The attribute at `i` is the first key type, and states `kt`.
pub open spec fn states_type(attrs: Seq<token::AttributeView>, i: int, kt: KeyType) -> bool {
    &&& 0 <= i < attrs.len()
    &&& attrs[i] == token::AttributeView::KeyType(kt)
    &&& forall|k: int| 0 <= k < i ==> !(#[trigger] attrs[k] is KeyType)
}

proof fn first_part_is(attrs: Seq<token::AttributeView>, part: Part, i: int)
    requires
        0 <= i <= attrs.len(),
        forall|k: int| 0 <= k < i ==> part_in(#[trigger] attrs[k], part) is None,
        i < attrs.len() ==> part_in(attrs[i], part) is Some,
    ensures
        first_part(attrs, part) == (if i < attrs.len() {
            part_in(attrs[i], part)
        } else {
            None
        }),
    decreases attrs.len(),
{
    if attrs.len() > 0 && i > 0 {
        let rest = attrs.drop_first();
        assert(part_in(attrs[0], part) is None);
        assert forall|k: int| 0 <= k < i - 1 implies part_in(#[trigger] rest[k], part) is None by {
            assert(rest[k] == attrs[k + 1]);
        }
        first_part_is(rest, part, i - 1);
    }
}

/// The identifier that is shown for a key is a hexadecimal notation of all the bytes of the
/// identifier that the key has, however many: read as an identifier of the command line, it
/// gives those bytes.
pub proof fn shown_identifiers_read_back(attrs: Option<Vec<Attribute>>, i: int, id: Seq<u8>)
    requires
        states_id(answer_views(attrs), i, id),
    ensures
        hexcode::notates(listed_part(attrs, Part::Id), id),
        listed_part(attrs, Part::Id).len() == 2 * id.len(),
        hexcode::hex_decoded(vstd::utf8::encode_utf8(listed_part(attrs, Part::Id))) == Ok::<
            Seq<u8>,
            hexcode::HexFault,
        >(id),
{
    let all = answer_views(attrs);
    assert forall|k: int| 0 <= k < i implies part_in(#[trigger] all[k], Part::Id) is None by {}
    first_part_is(all, Part::Id, i);
    hexcode::written_notation(id);
    hexcode::notation_round_trip(listed_part(attrs, Part::Id), id);
}

/// What an attribute shows of an identifier is a notation of all its bytes; it shows one
/// exactly if it states an identifier that is not empty.
pub proof fn attributes_show_whole_identifiers(a: token::AttributeView)
    ensures
        part_in(a, Part::Id) is Some <==> (a matches token::AttributeView::Bytes(t, v) && t
            == AttributeType::Id && v.len() > 0),
        part_in(a, Part::Id) matches Some(shown) ==> hexcode::notates(shown, a->Bytes_1),
        part_in(a, Part::Label) is Some <==> (a matches token::AttributeView::Bytes(t, v) && t
            == AttributeType::Label && vstd::utf8::valid_utf8(v)),
        part_in(a, Part::Label) matches Some(shown) ==> shown == vstd::utf8::decode_utf8(a->Bytes_1),
        part_in(a, Part::Type) is Some <==> a is KeyType,
{
    if let token::AttributeView::Bytes(t, v) = a {
        hexcode::written_notation(v);
    }
}

/// The label that is shown for a key is the first one that is UTF-8, and the type the first
/// one that is stated.
pub proof fn shown_labels_and_types(attrs: Option<Vec<Attribute>>, i: int, label: Seq<u8>, kt: KeyType)
    ensures
        states_label(answer_views(attrs), i, label) ==> listed_part(attrs, Part::Label)
            == vstd::utf8::decode_utf8(label),
        states_type(answer_views(attrs), i, kt) ==> listed_part(attrs, Part::Type)
            == token::listed_key_type(kt),
{
    let all = answer_views(attrs);
    if states_label(all, i, label) {
        assert forall|k: int| 0 <= k < i implies part_in(#[trigger] all[k], Part::Label) is None by {}
        first_part_is(all, Part::Label, i);
    }
    if states_type(all, i, kt) {
        assert forall|k: int| 0 <= k < i implies part_in(#[trigger] all[k], Part::Type) is None by {}
        first_part_is(all, Part::Type, i);
    }
}

/// Where nothing is stated, the listing says so.
pub proof fn missing_parts_are_marked(attrs: Option<Vec<Attribute>>)
    ensures
        (forall|k: int|
            0 <= k < answer_views(attrs).len() ==> !(#[trigger] answer_views(attrs)[k] matches token::AttributeView::Bytes(
                t,
                v,
            ) && t == AttributeType::Id && v.len() > 0)) ==> listed_part(attrs, Part::Id)
            == "<no id>"@,
        (forall|k: int|
            0 <= k < answer_views(attrs).len() ==> !(#[trigger] answer_views(attrs)[k] matches token::AttributeView::Bytes(
                t,
                v,
            ) && t == AttributeType::Label && vstd::utf8::valid_utf8(v))) ==> listed_part(
            attrs,
            Part::Label,
        ) == "<no label>"@,
        (forall|k: int|
            0 <= k < answer_views(attrs).len() ==> !(#[trigger] answer_views(attrs)[k]
                is KeyType)) ==> listed_part(attrs, Part::Type) == "?"@,
{
    let all = answer_views(attrs);
    if forall|k: int|
        0 <= k < all.len() ==> !(#[trigger] all[k] matches token::AttributeView::Bytes(t, v) && t
            == AttributeType::Id && v.len() > 0) {
        assert forall|k: int| 0 <= k < all.len() implies part_in(#[trigger] all[k], Part::Id)
            is None by {}
        first_part_is(all, Part::Id, all.len() as int);
    }
    if forall|k: int|
        0 <= k < all.len() ==> !(#[trigger] all[k] matches token::AttributeView::Bytes(t, v) && t
            == AttributeType::Label && vstd::utf8::valid_utf8(v)) {
        assert forall|k: int| 0 <= k < all.len() implies part_in(#[trigger] all[k], Part::Label)
            is None by {}
        first_part_is(all, Part::Label, all.len() as int);
    }
    if forall|k: int| 0 <= k < all.len() ==> !(#[trigger] all[k] is KeyType) {
        assert forall|k: int| 0 <= k < all.len() implies part_in(#[trigger] all[k], Part::Type)
            is None by {}
        first_part_is(all, Part::Type, all.len() as int);
    }
}

/// The line for a key shows its label, a notation of its whole identifier and its type, in
/// this order, each from the answer to its own question.
pub proof fn lines_show_the_key(
    k: KeyReport,
    i: int,
    label: Seq<u8>,
    j: int,
    id: Seq<u8>,
    l: int,
    kt: KeyType,
)
    requires
        states_label(answer_views(k.label), i, label),
        states_id(answer_views(k.id), j, id),
        states_type(answer_views(k.key_type), l, kt),
    ensures
        exists|shown: Seq<char>| #[trigger]
            hexcode::notates(shown, id) && key_text(k) == "  label="@ + text::debug_text(
                vstd::utf8::decode_utf8(label),
            ) + "  id="@ + shown + "  type="@ + token::listed_key_type(kt),
{
    shown_identifiers_read_back(k.id, j, id);
    shown_labels_and_types(k.label, i, label, kt);
    shown_labels_and_types(k.key_type, l, label, kt);
    assert(hexcode::notates(listed_part(k.id, Part::Id), id));
}

/// The line for a slot states its number and the label of its token without the white space
/// around it, and says whether the keys are protected by the module alone.
pub proof fn slot_lines_show_the_token(id: u64, info: TokenInfo)
    ensures
        !info.login_required ==> slot_text(id, info) == "Slot "@ + text::decimal_text(id as nat)
            + "  token: "@ + text::trimmed(info.label@) + "  ["@ + "module-protected"@ + "]"@,
        info.login_required ==> slot_text(id, info) == "Slot "@ + text::decimal_text(id as nat)
            + "  token: "@ + text::trimmed(info.label@) + "  ["@
            + "token-protected (OCS or softcard)"@ + "]"@,
{
}

/// A slot with a token has a line of its own, and below it one line for each key, in order,
/// or one that says why there is none.  A slot without a token has a line only where all
/// slots are listed.
pub proof fn slots_show_their_keys(r: SlotReport, all_slots: bool)
    ensures
        r.token is None ==> slot_texts(r, all_slots).len() == (if all_slots {
            1int
        } else {
            0
        }),
        r.token is None && all_slots ==> slot_texts(r, all_slots)[0] == "Slot "@
            + text::decimal_text(r.id as nat) + "  [no token present]"@,
        r.token matches Some((info, report)) ==> slot_texts(r, all_slots).len() > 0 && slot_texts(
            r,
            all_slots,
        )[0] == slot_text(r.id, info),
        r.token matches Some((info, TokenReport::Keys(keys))) ==> {
            &&& keys@.len() > 0 ==> slot_texts(r, all_slots).len() == 1 + keys@.len()
            &&& forall|k: int|
                0 <= k < keys@.len() ==> slot_texts(r, all_slots)[1 + k] == key_text(
                    #[trigger] keys@[k],
                )
            &&& keys@.len() == 0 ==> slot_texts(r, all_slots).skip(1) == seq!["  (no signing keys)"@]
        },
        r.token matches Some((info, TokenReport::NoSession(e))) ==> slot_texts(r, all_slots).skip(1)
            == seq!["  (could not open session: "@ + e@ + ")"@],
        r.token matches Some((info, TokenReport::NoSearch(e))) ==> slot_texts(r, all_slots).len()
            == 1,
{
    let t = slot_texts(r, all_slots);
    if let Some((info, report)) = r.token {
        match report {
            TokenReport::NoSession(e) => {
                assert(t.skip(1) =~= seq!["  (could not open session: "@ + e@ + ")"@]);
            },
            TokenReport::NoSearch(_) => {},
            TokenReport::Keys(keys) => {
                if keys@.len() == 0 {
                    assert(t.skip(1) =~= seq!["  (no signing keys)"@]);
                }
            },
        }
    }
}

/// The slots are listed one after the other: the listing of two groups of slots is that of
/// the first and then that of the second, unless a search failed in the first group, which
/// ends it.
pub proof fn listings_join(a: Seq<SlotReport>, b: Seq<SlotReport>, all_slots: bool)
    ensures
        (forall|i: int|
            0 <= i < a.len() ==> !((#[trigger] a[i]).token matches Some((info, report)) && report
                is NoSearch)) ==> listed(a + b, all_slots) == listed(a, all_slots) + listed(
            b,
            all_slots,
        ) && listing_failure(a + b) == listing_failure(b) && listing_failure(a) is None,
        (exists|i: int|
            0 <= i < a.len() && ((#[trigger] a[i]).token matches Some((info, report)) && report
                is NoSearch)) ==> listed(a + b, all_slots) == listed(a, all_slots)
            && listing_failure(a + b) == listing_failure(a) && listing_failure(a) is Some,
    decreases a.len(),
{
    if a.len() == 0 {
        assert(a + b =~= b);
        assert(Seq::<Seq<char>>::empty() + listed(b, all_slots) =~= listed(b, all_slots));
    } else {
        let rest = a.drop_first();
        assert((a + b)[0] == a[0]);
        assert((a + b).drop_first() =~= rest + b);
        listings_join(rest, b, all_slots);
        let first = slot_texts(a[0], all_slots);
        assert(first + (listed(rest, all_slots) + listed(b, all_slots)) =~= (first + listed(
            rest,
            all_slots,
        )) + listed(b, all_slots));
        assert forall|i: int| 0 <= i < rest.len() implies #[trigger] rest[i] == a[i + 1] by {}
        if !search_failed(a[0]) {
            if exists|i: int| 0 <= i < a.len() && search_failed(#[trigger] a[i]) {
                let i = choose|i: int| 0 <= i < a.len() && search_failed(#[trigger] a[i]);
                assert(rest[i - 1] == a[i]);
                assert(search_failed(rest[i - 1]));
            } else {
                assert forall|i: int| 0 <= i < rest.len() implies !((#[trigger] rest[i]).token matches Some(
                    (info, report),
                ) && report is NoSearch) by {
                    assert(!search_failed(a[i + 1]));
                }
            }
        }
    }
}

/// Every signing key that was found is listed, unless the search failed in a slot before.
pub proof fn every_key_is_listed(slots: Seq<SlotReport>, all_slots: bool, i: int, k: int)
    requires
        0 <= i < slots.len(),
        forall|j: int|
            0 <= j < i ==> !((#[trigger] slots[j]).token matches Some((info, report)) && report
                is NoSearch),
        slots[i].token matches Some((info, TokenReport::Keys(keys))) && 0 <= k < keys@.len(),
    ensures
        listing_texts(slots, all_slots).contains(key_text((slots[i].token->0).1->Keys_0@[k])),
        listing_texts(slots, all_slots).contains(slot_text(slots[i].id, (slots[i].token->0).0)),
{
    let before = slots.take(i);
    let after = slots.skip(i);
    assert(before + after =~= slots);
    listings_join(before, after, all_slots);
    slots_show_their_keys(slots[i], all_slots);
    let own = slot_texts(slots[i], all_slots);
    let head = listed(before, all_slots);
    assert(after[0] == slots[i]);
    assert(forall|j: int| 0 <= j < before.len() ==> #[trigger] before[j] == slots[j]);
    let rest = listed(after.drop_first(), all_slots);
    assert(listed(slots, all_slots) == head + (own + rest));
    assert((head + (own + rest))[head.len() + 1 + k] == own[1 + k]);
    assert((head + (own + rest))[head.len() as int] == own[0]);
}

/// The listing ends with an error exactly if a search failed, and the error is that of the
/// first one.
pub proof fn listings_end_with_the_failure(slots: Seq<SlotReport>, i: int)
    requires
        0 <= i < slots.len(),
        forall|j: int|
            0 <= j < i ==> !((#[trigger] slots[j]).token matches Some((info, report)) && report
                is NoSearch),
    ensures
        slots[i].token matches Some((info, TokenReport::NoSearch(e))) ==> listing_failure(slots)
            == Some(error::ErrorView::Other(e@)),
    decreases slots.len(),
{
    if i > 0 {
        let rest = slots.drop_first();
        assert(!search_failed(slots[0]));
        assert forall|j: int| 0 <= j < i - 1 implies !((#[trigger] rest[j]).token matches Some(
            (info, report),
        ) && report is NoSearch) by {
            assert(rest[j] == slots[j + 1]);
        }
        listings_end_with_the_failure(rest, i - 1);
    }
}

/// Without any slot the listing says so, and otherwise it is that of the slots.
pub proof fn empty_listings_say_so(slots: Seq<SlotReport>, all_slots: bool)
    ensures
        slots.len() == 0 ==> listing_texts(slots, all_slots) == seq!["No slots found."@],
        slots.len() > 0 ==> listing_texts(slots, all_slots) == listed(slots, all_slots),
        slots.len() == 0 ==> listing_failure(slots) is None,
{
}

/// The line for a key is made of what is shown of its label, its identifier and its type,
/// in this order, whatever of it is known.
pub proof fn lines_have_three_parts(k: KeyReport)
    ensures
        key_text(k) == "  label="@ + text::debug_text(listed_part(k.label, Part::Label)) + "  id="@
            + listed_part(k.id, Part::Id) + "  type="@ + listed_part(k.key_type, Part::Type),
{
}

} // verus!
