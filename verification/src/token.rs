//! What a PKCS#11 token tells of its objects, as plain values.

use vstd::prelude::*;

use crate::bytes;
use crate::text;

verus! {

/// The type of a key on a token.
#[derive(Debug, Clone, Copy, PartialEq, Eq, Structural)]
pub enum KeyType {
    RSA,
    DSA,
    DH,
    EC,
    GenericSecret,
    DES3,
    AES,
    EcEdwards,
    EcMontgomery,
    /// Any other type, by its `CKK_` number.
    Other(u64),
}

/// The `CKK_` number of a key type.
pub open spec fn key_type_code(kt: KeyType) -> u64 {
    match kt {
        KeyType::RSA => 0,
        KeyType::DSA => 1,
        KeyType::DH => 2,
        KeyType::EC => 3,
        KeyType::GenericSecret => 16,
        KeyType::DES3 => 21,
        KeyType::AES => 31,
        KeyType::EcEdwards => 64,
        KeyType::EcMontgomery => 65,
        KeyType::Other(code) => code,
    }
}

/// How an unlisted key type appears in messages.
pub open spec fn key_type_debug(kt: KeyType) -> Seq<char> {
    "KeyType { val: "@ + text::decimal_text(key_type_code(kt) as nat) + " }"@
}

/// What a listing calls a key type.
pub open spec fn listed_key_type(kt: KeyType) -> Seq<char> {
    match kt {
        KeyType::RSA => "RSA"@,
        KeyType::EC => "EC (ECDSA/ECDH)"@,
        KeyType::EcEdwards => "EC-Edwards (EdDSA)"@,
        KeyType::EcMontgomery => "EC-Montgomery (X25519)"@,
        KeyType::DSA => "DSA"@,
        KeyType::DH => "DH"@,
        KeyType::AES => "AES"@,
        KeyType::DES3 => "DES3"@,
        KeyType::GenericSecret => "Generic secret"@,
        KeyType::Other(_) => "unknown ("@ + key_type_debug(kt) + ")"@,
    }
}

impl KeyType {
    /// The key type with the given `CKK_` number.
    pub fn from_code(code: u64) -> (kt: KeyType)
        ensures
            key_type_code(kt) == code,
            kt is Other ==> !(code <= 3 || code == 16 || code == 21 || code == 31 || code == 64
                || code == 65),
    {
        match code {
            0 => KeyType::RSA,
            1 => KeyType::DSA,
            2 => KeyType::DH,
            3 => KeyType::EC,
            16 => KeyType::GenericSecret,
            21 => KeyType::DES3,
            31 => KeyType::AES,
            64 => KeyType::EcEdwards,
            65 => KeyType::EcMontgomery,
            _ => KeyType::Other(code),
        }
    }

    /// The `CKK_` number of the key type.
    pub fn code(&self) -> (code: u64)
        ensures
            code == key_type_code(*self),
    {
        match self {
            KeyType::RSA => 0,
            KeyType::DSA => 1,
            KeyType::DH => 2,
            KeyType::EC => 3,
            KeyType::GenericSecret => 16,
            KeyType::DES3 => 21,
            KeyType::AES => 31,
            KeyType::EcEdwards => 64,
            KeyType::EcMontgomery => 65,
            KeyType::Other(code) => *code,
        }
    }

    /// How the key type appears in messages.
    pub fn debug(&self) -> (out: String)
        ensures
            out@ == key_type_debug(*self),
    {
        text::join3("KeyType { val: ", text::decimal(self.code()).as_str(), " }")
    }
}

/// What a listing calls the key type `kt`.
pub fn key_type_name(kt: KeyType) -> (out: String)
    ensures
        out@ == listed_key_type(kt),
{
    match kt {
        KeyType::RSA => "RSA".to_owned(),
        KeyType::EC => "EC (ECDSA/ECDH)".to_owned(),
        KeyType::EcEdwards => "EC-Edwards (EdDSA)".to_owned(),
        KeyType::EcMontgomery => "EC-Montgomery (X25519)".to_owned(),
        KeyType::DSA => "DSA".to_owned(),
        KeyType::DH => "DH".to_owned(),
        KeyType::AES => "AES".to_owned(),
        KeyType::DES3 => "DES3".to_owned(),
        KeyType::GenericSecret => "Generic secret".to_owned(),
        KeyType::Other(_) => text::join3("unknown (", kt.debug().as_str(), ")"),
    }
}

/// The class of an object.
#[derive(Debug, Clone, Copy, PartialEq, Eq, Structural)]
pub enum ObjectClass {
    PublicKey,
    PrivateKey,
}

/// The attributes that are read from objects.
#[derive(Debug, Clone, Copy, PartialEq, Eq, Structural)]
pub enum AttributeType {
    Id,
    Label,
    KeyType,
    Modulus,
    PublicExponent,
    EcParams,
    EcPoint,
}

/// The name of an attribute in messages.
pub open spec fn attribute_type_text(t: AttributeType) -> Seq<char> {
    match t {
        AttributeType::Id => "Id"@,
        AttributeType::Label => "Label"@,
        AttributeType::KeyType => "KeyType"@,
        AttributeType::Modulus => "Modulus"@,
        AttributeType::PublicExponent => "PublicExponent"@,
        AttributeType::EcParams => "EcParams"@,
        AttributeType::EcPoint => "EcPoint"@,
    }
}

impl AttributeType {
    /// The name of the attribute in messages.
    pub fn text(&self) -> (out: String)
        ensures
            out@ == attribute_type_text(*self),
    {
        match self {
            AttributeType::Id => "Id".to_owned(),
            AttributeType::Label => "Label".to_owned(),
            AttributeType::KeyType => "KeyType".to_owned(),
            AttributeType::Modulus => "Modulus".to_owned(),
            AttributeType::PublicExponent => "PublicExponent".to_owned(),
            AttributeType::EcParams => "EcParams".to_owned(),
            AttributeType::EcPoint => "EcPoint".to_owned(),
        }
    }
}

/// An attribute of an object with its value.
#[derive(Debug)]
pub enum Attribute {
    Class(ObjectClass),
    Sign(bool),
    KeyType(KeyType),
    /// An attribute whose value is a byte string.
    Bytes(AttributeType, Vec<u8>),
    /// An attribute that nothing here looks at.
    Other,
}

/// The mathematical content of an [`Attribute`].
pub enum AttributeView {
    Class(ObjectClass),
    Sign(bool),
    KeyType(KeyType),
    Bytes(AttributeType, Seq<u8>),
    Other,
}

impl View for Attribute {
    type V = AttributeView;

    open spec fn view(&self) -> AttributeView {
        match self {
            Attribute::Class(c) => AttributeView::Class(*c),
            Attribute::Sign(b) => AttributeView::Sign(*b),
            Attribute::KeyType(kt) => AttributeView::KeyType(*kt),
            Attribute::Bytes(t, v) => AttributeView::Bytes(*t, v@),
            Attribute::Other => AttributeView::Other,
        }
    }
}

/// The mathematical content of a list of attributes.
pub open spec fn attribute_views(attrs: Seq<Attribute>) -> Seq<AttributeView> {
    attrs.map_values(|a: Attribute| a@)
}

/// The value of the last attribute of type `t` in a list; where `filled` is set,
/// empty values are passed over.
pub open spec fn last_value(
    attrs: Seq<AttributeView>,
    t: AttributeType,
    filled: bool,
) -> Option<Seq<u8>>
    decreases attrs.len(),
{
    if attrs.len() == 0 {
        None
    } else if attrs.last() matches AttributeView::Bytes(u, v) && u == t && !(filled && v.len() == 0)
    {
        Some(attrs.last()->Bytes_1)
    } else {
        last_value(attrs.drop_last(), t, filled)
    }
}

/// A copy of the value of the last attribute of type `t`; where `filled` is set,
/// empty values are passed over.
pub fn find_last(attrs: &Vec<Attribute>, t: AttributeType, filled: bool) -> (r: Option<Vec<u8>>)
    ensures
        match last_value(attribute_views(attrs@), t, filled) {
            Some(value) => r matches Some(v) && v@ == value,
            None => r is None,
        },
        r matches Some(v) ==> exists|i: int|
            0 <= i < attrs@.len() && (#[trigger] attrs@[i])@ == AttributeView::Bytes(t, v@),
{
    let mut i: usize = attrs.len();
    let ghost views = attribute_views(attrs@);
    assert(views.take(i as int) =~= views);
    while i > 0
        invariant
            i <= attrs.len(),
            views == attribute_views(attrs@),
            last_value(views, t, filled) == last_value(views.take(i as int), t, filled),
        decreases i,
    {
        assert(views.take(i as int).last() == attrs@[i - 1]@);
        assert(views.take(i as int).drop_last() =~= views.take(i - 1));
        if let Attribute::Bytes(u, v) = &attrs[i - 1] {
            if *u == t && !(filled && v.len() == 0) {
                let copy = bytes::concat(v.as_slice(), &[]);
                assert(copy@ =~= v@);
                assert(attrs@[i - 1]@ == AttributeView::Bytes(t, copy@));
                return Some(copy);
            }
        }
        i -= 1;
    }
    None
}

// ---------------------------------------------------------------------------
// Laws
// ---------------------------------------------------------------------------

/// The attribute at `i` is the last one of type `t`.
pub open spec fn is_last(attrs: Seq<AttributeView>, i: int, t: AttributeType) -> bool {
    &&& 0 <= i < attrs.len()
    &&& attrs[i] matches AttributeView::Bytes(u, _) && u == t
    &&& forall|k: int|
        i < k < attrs.len() ==> !(#[trigger] attrs[k] matches AttributeView::Bytes(u, _) && u == t)
}

/// The attribute at `i` is the last one of type `t` whose value is not empty.
pub open spec fn is_last_filled(attrs: Seq<AttributeView>, i: int, t: AttributeType) -> bool {
    &&& 0 <= i < attrs.len()
    &&& attrs[i] matches AttributeView::Bytes(u, v) && u == t && v.len() > 0
    &&& forall|k: int|
        i < k < attrs.len() ==> !(#[trigger] attrs[k] matches AttributeView::Bytes(u, v) && u == t
            && v.len() > 0)
}

/// The value that is read is that of the last attribute of the type, and there is none
/// exactly if no attribute is of the type.
pub proof fn values_are_the_last(attrs: Seq<AttributeView>, t: AttributeType)
    ensures
        last_value(attrs, t, false) is Some <==> exists|i: int| #[trigger] is_last(attrs, i, t),
        forall|i: int| #[trigger]
            is_last(attrs, i, t) ==> last_value(attrs, t, false) == Some(attrs[i]->Bytes_1),
    decreases attrs.len(),
{
    if attrs.len() > 0 {
        let head = attrs.drop_last();
        values_are_the_last(head, t);
        if attrs.last() matches AttributeView::Bytes(u, v) && u == t {
            assert(is_last(attrs, attrs.len() - 1, t));
            assert forall|i: int| #[trigger] is_last(attrs, i, t) implies i == attrs.len() - 1 by {
                if i < attrs.len() - 1 {
                    assert(attrs[attrs.len() - 1] == attrs.last());
                }
            }
        } else {
            assert forall|i: int| is_last(head, i, t) <==> #[trigger] is_last(attrs, i, t) by {
                if is_last(head, i, t) {
                    assert forall|k: int| i < k < attrs.len() implies !(#[trigger] attrs[k] matches AttributeView::Bytes(
                        u,
                        _,
                    ) && u == t) by {
                        if k < head.len() {
                            assert(head[k] == attrs[k]);
                        }
                    }
                }
                if is_last(attrs, i, t) {
                    assert(i < head.len());
                    assert forall|k: int| i < k < head.len() implies !(#[trigger] head[k] matches AttributeView::Bytes(
                        u,
                        _,
                    ) && u == t) by {
                        assert(head[k] == attrs[k]);
                    }
                }
            }
            if exists|i: int| #[trigger] is_last(head, i, t) {
                let i = choose|i: int| #[trigger] is_last(head, i, t);
                assert(is_last(attrs, i, t));
            }
            assert forall|i: int| #[trigger] is_last(attrs, i, t) implies last_value(attrs, t, false)
                == Some(attrs[i]->Bytes_1) by {
                assert(is_last(head, i, t));
            }
        }
    }
}

/// There is one last attribute of a type.
pub proof fn last_is_unique(attrs: Seq<AttributeView>, i: int, t: AttributeType)
    requires
        is_last(attrs, i, t),
    ensures
        last_value(attrs, t, false) == Some(attrs[i]->Bytes_1),
{
    values_are_the_last(attrs, t);
}

/// The value that is read where empty ones are passed over is that of the last attribute of
/// the type that is not empty.
pub proof fn filled_values_are_the_last(attrs: Seq<AttributeView>, t: AttributeType)
    ensures
        last_value(attrs, t, true) is Some <==> exists|i: int| #[trigger]
            is_last_filled(attrs, i, t),
        forall|i: int| #[trigger]
            is_last_filled(attrs, i, t) ==> last_value(attrs, t, true) == Some(attrs[i]->Bytes_1),
    decreases attrs.len(),
{
    if attrs.len() > 0 {
        let head = attrs.drop_last();
        filled_values_are_the_last(head, t);
        if attrs.last() matches AttributeView::Bytes(u, v) && u == t && v.len() > 0 {
            assert(is_last_filled(attrs, attrs.len() - 1, t));
            assert forall|i: int| #[trigger] is_last_filled(attrs, i, t) implies i == attrs.len()
                - 1 by {
                if i < attrs.len() - 1 {
                    assert(attrs[attrs.len() - 1] == attrs.last());
                }
            }
        } else {
            assert forall|i: int|
                is_last_filled(head, i, t) <==> #[trigger] is_last_filled(attrs, i, t) by {
                if is_last_filled(head, i, t) {
                    assert forall|k: int| i < k < attrs.len() implies !(#[trigger] attrs[k] matches AttributeView::Bytes(
                        u,
                        v,
                    ) && u == t && v.len() > 0) by {
                        if k < head.len() {
                            assert(head[k] == attrs[k]);
                        }
                    }
                }
                if is_last_filled(attrs, i, t) {
                    assert(i < head.len());
                    assert forall|k: int| i < k < head.len() implies !(#[trigger] head[k] matches AttributeView::Bytes(
                        u,
                        v,
                    ) && u == t && v.len() > 0) by {
                        assert(head[k] == attrs[k]);
                    }
                }
            }
            if exists|i: int| #[trigger] is_last_filled(head, i, t) {
                let i = choose|i: int| #[trigger] is_last_filled(head, i, t);
                assert(is_last_filled(attrs, i, t));
            }
            assert forall|i: int| #[trigger] is_last_filled(attrs, i, t) implies last_value(
                attrs,
                t,
                true,
            ) == Some(attrs[i]->Bytes_1) by {
                assert(is_last_filled(head, i, t));
            }
        }
    }
}

/// There is one last attribute of a type that is not empty.
pub proof fn last_filled_is_unique(attrs: Seq<AttributeView>, i: int, t: AttributeType)
    requires
        is_last_filled(attrs, i, t),
    ensures
        last_value(attrs, t, true) == Some(attrs[i]->Bytes_1),
{
    filled_values_are_the_last(attrs, t);
}

/// Key types go by the numbers of PKCS#11: CKK_RSA is 0, CKK_DSA 1, CKK_DH 2, CKK_EC 3,
/// CKK_GENERIC_SECRET 0x10, CKK_DES3 0x15, CKK_AES 0x1f, CKK_EC_EDWARDS 0x40 and
/// CKK_EC_MONTGOMERY 0x41.  No two of them share a number.
pub proof fn key_types_go_by_their_numbers(a: KeyType, b: KeyType)
    ensures
        key_type_code(KeyType::RSA) == 0x0,
        key_type_code(KeyType::DSA) == 0x1,
        key_type_code(KeyType::DH) == 0x2,
        key_type_code(KeyType::EC) == 0x3,
        key_type_code(KeyType::GenericSecret) == 0x10,
        key_type_code(KeyType::DES3) == 0x15,
        key_type_code(KeyType::AES) == 0x1f,
        key_type_code(KeyType::EcEdwards) == 0x40,
        key_type_code(KeyType::EcMontgomery) == 0x41,
        a !is Other && b !is Other && key_type_code(a) == key_type_code(b) ==> a == b,
        a matches KeyType::Other(n) ==> key_type_code(a) == n,
{
}

/// What a listing calls a key type starts with the usual name of that type.
pub proof fn listed_types_go_by_their_names(kt: KeyType)
    ensures
        kt == KeyType::RSA ==> "RSA"@.is_prefix_of(listed_key_type(kt)),
        kt == KeyType::EC ==> "EC (ECDSA"@.is_prefix_of(listed_key_type(kt)),
        kt == KeyType::EcEdwards ==> "EC-Edwards"@.is_prefix_of(listed_key_type(kt)),
        kt == KeyType::EcMontgomery ==> "EC-Montgomery"@.is_prefix_of(listed_key_type(kt)),
        kt == KeyType::DSA ==> "DSA"@.is_prefix_of(listed_key_type(kt)),
        kt == KeyType::DH ==> "DH"@.is_prefix_of(listed_key_type(kt)),
        kt == KeyType::AES ==> "AES"@.is_prefix_of(listed_key_type(kt)),
        kt == KeyType::DES3 ==> "DES3"@.is_prefix_of(listed_key_type(kt)),
        kt == KeyType::GenericSecret ==> "Generic secret"@.is_prefix_of(listed_key_type(kt)),
        kt is Other ==> "unknown ("@.is_prefix_of(listed_key_type(kt)),
        kt matches KeyType::Other(n) ==> listed_key_type(kt) == "unknown ("@ + ("KeyType { val: "@
            + text::decimal_text(n as nat) + " }"@) + ")"@,
{
    let t = listed_key_type(kt);
    reveal_strlit("EC (ECDSA");
    reveal_strlit("EC (ECDSA/ECDH)");
    reveal_strlit("EC-Edwards");
    reveal_strlit("EC-Edwards (EdDSA)");
    reveal_strlit("EC-Montgomery");
    reveal_strlit("EC-Montgomery (X25519)");
    if kt == KeyType::EC {
        assert("EC (ECDSA"@ =~= t.subrange(0, "EC (ECDSA"@.len() as int));
    } else if kt == KeyType::EcEdwards {
        assert("EC-Edwards"@ =~= t.subrange(0, "EC-Edwards"@.len() as int));
    } else if kt == KeyType::EcMontgomery {
        assert("EC-Montgomery"@ =~= t.subrange(0, "EC-Montgomery"@.len() as int));
    } else if kt is Other {
        assert("unknown ("@ =~= t.subrange(0, "unknown ("@.len() as int));
    } else {
        assert(t =~= t.subrange(0, t.len() as int));
    }
}

} // verus!
