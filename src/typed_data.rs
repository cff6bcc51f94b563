//! The fixed typed-data schemas and the message hash chain over them.
use crate::crypto::{
    all_wf, felt_values, hash_on_elements, keccak_of, pedersen_on_elements, starknet_keccak_value,
};
use crate::error::{flow_error_of, from_encode_error, FlowError};
use crate::felt::{
    encode_short_string, felt_from_u128, fits_short_string, short_string_value,
    EncodeError, Felt252,
};
use vstd::prelude::*;
use vstd::string::*;
use vstd::utf8::*;

verus! {

/// A value of a message field, declared with the type `felt`.
#[derive(Debug)]
pub enum FieldValue {
    /// A short string, packed into one field element.
    Text(String),
    /// A number, taken as it is; a negative number has no field element.
    Integer(i128),
}

/// A struct to be hashed: its type name, its fields' names in declared
/// order (every field of type `felt`), and one value for each field.
#[derive(Debug)]
pub struct TypedMessage {
    pub primary_type: String,
    pub fields: Vec<String>,
    pub values: Vec<FieldValue>,
}

/// The signing domain: the venue's name, the protocol version and the chain.
#[derive(Debug)]
pub struct Domain {
    pub name: Felt252,
    pub version: Felt252,
    pub chain_id: Felt252,
}

impl Domain {
    pub open spec fn wf(&self) -> bool {
        self.name.wf() && self.version.wf() && self.chain_id.wf()
    }

    /// The domain's values in the order of its schema.
    pub open spec fn values(&self) -> Seq<nat> {
        seq![self.name@, self.version@, self.chain_id@]
    }
}

impl TypedMessage {
    /// One value for each declared field.
    pub open spec fn wf(&self) -> bool {
        self.fields@.len() == self.values@.len()
    }
}

/// The field element of a value, if it has one.
pub open spec fn value_felt(v: FieldValue) -> Result<nat, EncodeError> {
    match v {
        FieldValue::Text(s) => if fits_short_string(encode_utf8(s@)) {
            Ok(short_string_value(encode_utf8(s@)))
        } else {
            Err(EncodeError::EncodingOverflow)
        },
        FieldValue::Integer(i) => if i >= 0 {
            Ok(i as nat)
        } else {
            Err(EncodeError::InvalidFieldValue)
        },
    }
}

/// The field elements of a sequence of values, or the error of the first
/// value that has none.
pub open spec fn values_felts(vs: Seq<FieldValue>) -> Result<Seq<nat>, EncodeError>
    decreases vs.len(),
{
    if vs.len() == 0 {
        Ok(Seq::empty())
    } else {
        match values_felts(vs.drop_last()) {
            Err(e) => Err(e),
            Ok(init) => match value_felt(vs.last()) {
                Err(e) => Err(e),
                Ok(x) => Ok(init.push(x)),
            },
        }
    }
}

/// The text `name:felt` of one field.
pub open spec fn field_entry(name: Seq<char>) -> Seq<char> {
    name + seq![':', 'f', 'e', 'l', 't']
}

/// The fields' entries separated by commas.
pub open spec fn field_list(names: Seq<Seq<char>>) -> Seq<char>
    decreases names.len(),
{
    if names.len() == 0 {
        Seq::empty()
    } else if names.len() == 1 {
        field_entry(names[0])
    } else {
        field_list(names.drop_last()) + seq![','] + field_entry(names.last())
    }
}

/// The canonical text of a struct type: `Name(field1:felt,field2:felt,...)`.
pub open spec fn encode_type_text(struct_name: Seq<char>, names: Seq<Seq<char>>) -> Seq<char> {
    struct_name + seq!['('] + field_list(names) + seq![')']
}

/// The texts of a sequence of strings.
pub open spec fn names_of(fields: Seq<String>) -> Seq<Seq<char>> {
    fields.map_values(|s: String| s@)
}

/// The type hash of a struct type: the Starknet Keccak of its canonical text.
pub open spec fn type_hash_value(struct_name: Seq<char>, names: Seq<Seq<char>>) -> nat {
    starknet_keccak_value(encode_utf8(encode_type_text(struct_name, names)))
}

/// The hash of a struct: the hash on elements of its type hash followed by
/// its values.
pub open spec fn struct_hash_value(struct_name: Seq<char>, names: Seq<Seq<char>>, vals: Seq<nat>) -> nat {
    pedersen_on_elements(seq![type_hash_value(struct_name, names)] + vals)
}

/// The name of the domain's struct type.
pub open spec fn domain_type_name() -> Seq<char> {
    seq!['S', 't', 'a', 'r', 'k', 'N', 'e', 't', 'D', 'o', 'm', 'a', 'i', 'n']
}

/// The domain's fields, in declared order.
pub open spec fn domain_field_names() -> Seq<Seq<char>> {
    seq![
        seq!['n', 'a', 'm', 'e'],
        seq!['v', 'e', 'r', 's', 'i', 'o', 'n'],
        seq!['c', 'h', 'a', 'i', 'n', 'I', 'd'],
    ]
}

/// The domain hash of the domain values `vals`, by the schema of the domain.
pub open spec fn domain_hash_of(vals: Seq<nat>) -> nat {
    struct_hash_value(domain_type_name(), domain_field_names(), vals)
}

/// The domain hash, by the schema of the domain.
pub open spec fn domain_hash_value(d: Domain) -> nat {
    domain_hash_of(d.values())
}

/// The domain's type text written out whole.
pub open spec fn domain_type_text() -> Seq<char> {
    "StarkNetDomain(name:felt,version:felt,chainId:felt)"@
}

/// The domain hash from the written-out type text, independent of the schema.
pub open spec fn manual_domain_hash_value(d: Domain) -> nat {
    pedersen_on_elements(
        seq![starknet_keccak_value(encode_utf8(domain_type_text()))] + d.values(),
    )
}

/// The hash of a message's struct, or why a value of it has no field element.
pub open spec fn message_struct_hash_value(m: TypedMessage) -> Result<nat, EncodeError> {
    match values_felts(m.values@) {
        Ok(vals) => Ok(struct_hash_value(m.primary_type@, names_of(m.fields@), vals)),
        Err(e) => Err(e),
    }
}

/// The prefix that separates signed messages from other hashes.
pub open spec fn message_prefix_value() -> nat {
    short_string_value(encode_utf8("StarkNet Message"@))
}

/// The signable hash of a struct hash `sh` in the domain with values `vals`
/// for an account.
pub open spec fn signable_hash_of(vals: Seq<nat>, account: nat, sh: nat) -> nat {
    pedersen_on_elements(seq![message_prefix_value(), domain_hash_of(vals), account, sh])
}

/// The signable hash of a message in a domain for an account, or why a value
/// of the message has no field element.
pub open spec fn message_hash_value(d: Domain, m: TypedMessage, account: nat) -> Result<nat, EncodeError> {
    match message_struct_hash_value(m) {
        Ok(sh) => Ok(signable_hash_of(d.values(), account, sh)),
        Err(e) => Err(e),
    }
}

/// An error among a prefix of the values is the error of all of them.
proof fn lemma_values_felts_prefix_err(vs: Seq<FieldValue>, k: int)
    requires
        0 <= k <= vs.len(),
        values_felts(vs.subrange(0, k)) is Err,
    ensures
        values_felts(vs) == values_felts(vs.subrange(0, k)),
    decreases vs.len() - k,
{
    if k < vs.len() {
        let next = vs.subrange(0, k + 1);
        assert(next.drop_last() =~= vs.subrange(0, k));
        lemma_values_felts_prefix_err(vs, k + 1);
    } else {
        assert(vs.subrange(0, k) =~= vs);
    }
}

/// The canonical text of a struct type: `Name(field1:felt,field2:felt,...)`.
pub fn encode_type(struct_name: &str, fields: &Vec<String>) -> (r: String)
    ensures
        r@ == encode_type_text(struct_name@, names_of(fields@)),
{
    proof {
        reveal_strlit("(");
        reveal_strlit(",");
        reveal_strlit(":felt");
        reveal_strlit(")");
    }
    let mut out = String::from_str(struct_name);
    out.append("(");
    let mut i: usize = 0;
    while i < fields.len()
        invariant
            i <= fields@.len(),
            out@ == struct_name@ + seq!['('] + field_list(names_of(fields@.subrange(0, i as int))),
        decreases fields@.len() - i,
    {
        let ghost before = out@;
        if i > 0 {
            out.append(",");
        }
        let ghost sep = out@;
        proof {
            reveal_strlit(",");
            reveal_strlit(":felt");
        }
        assert(i > 0 ==> sep =~= before + seq![',']);
        assert(i == 0 ==> sep == before);
        out.append(fields[i].as_str());
        out.append(":felt");
        assert(out@ =~= sep + field_entry(fields@[i as int]@));
        proof {
            let pre = names_of(fields@.subrange(0, i as int));
            let next = names_of(fields@.subrange(0, i + 1));
            assert(next.drop_last() =~= pre);
            assert(next.last() == fields@[i as int]@);
            if i == 0 {
                assert(pre =~= Seq::<Seq<char>>::empty());
                assert(next.len() == 1);
                assert(out@ =~= struct_name@ + seq!['('] + field_list(next));
            } else {
                assert(out@ =~= struct_name@ + seq!['('] + field_list(next));
            }
        }
        i = i + 1;
    }
    out.append(")");
    assert(fields@.subrange(0, fields@.len() as int) =~= fields@);
    assert(out@ =~= encode_type_text(struct_name@, names_of(fields@)));
    out
}

/// The type hash of a struct type: the Starknet Keccak of its canonical text.
pub fn type_hash(struct_name: &str, fields: &Vec<String>) -> (r: Felt252)
    ensures
        r.wf(),
        r@ == type_hash_value(struct_name@, names_of(fields@)),
{
    let text = encode_type(struct_name, fields);
    keccak_of(text.as_str().as_bytes())
}

/// The field element of one value.
pub fn encode_value(v: &FieldValue) -> (r: Result<Felt252, EncodeError>)
    ensures
        r matches Ok(f) ==> f.wf() && value_felt(*v) == Ok::<nat, EncodeError>(f@),
        r matches Err(e) ==> value_felt(*v) == Err::<nat, EncodeError>(e),
{
    match v {
        FieldValue::Text(s) => encode_short_string(s.as_str()),
        FieldValue::Integer(i) => {
            if *i < 0 {
                Err(EncodeError::InvalidFieldValue)
            } else {
                Ok(felt_from_u128(*i as u128))
            }
        },
    }
}

/// The field elements of the values, in order, or the error of the first
/// value that has none.
pub fn encode_values(vs: &Vec<FieldValue>) -> (r: Result<Vec<Felt252>, EncodeError>)
    ensures
        r matches Ok(fs) ==> all_wf(fs@) && values_felts(vs@) == Ok::<Seq<nat>, EncodeError>(
            felt_values(fs@),
        ),
        r matches Err(e) ==> values_felts(vs@) == Err::<Seq<nat>, EncodeError>(e),
{
    let mut out: Vec<Felt252> = Vec::new();
    let mut i: usize = 0;
    assert(vs@.subrange(0, 0) =~= Seq::<FieldValue>::empty());
    assert(felt_values(out@) =~= Seq::<nat>::empty());
    while i < vs.len()
        invariant
            i <= vs@.len(),
            all_wf(out@),
            values_felts(vs@.subrange(0, i as int)) == Ok::<Seq<nat>, EncodeError>(felt_values(out@)),
        decreases vs@.len() - i,
    {
        proof {
            let next = vs@.subrange(0, i + 1);
            assert(next.drop_last() =~= vs@.subrange(0, i as int));
            assert(next.last() == vs@[i as int]);
        }
        match encode_value(&vs[i]) {
            Ok(f) => {
                let ghost old_out = out@;
                out.push(f);
                assert(felt_values(out@) =~= felt_values(old_out).push(f@));
            },
            Err(e) => {
                proof {
                    lemma_values_felts_prefix_err(vs@, i + 1);
                }
                return Err(e);
            },
        }
        i = i + 1;
    }
    assert(vs@.subrange(0, vs@.len() as int) =~= vs@);
    Ok(out)
}

/// The hash of a struct: the hash on elements of its type hash followed by
/// its values.
pub fn struct_hash(struct_name: &str, fields: &Vec<String>, vals: &Vec<Felt252>) -> (r: Felt252)
    requires
        all_wf(vals@),
    ensures
        r.wf(),
        r@ == struct_hash_value(struct_name@, names_of(fields@), felt_values(vals@)),
{
    let th = type_hash(struct_name, fields);
    let mut elems: Vec<Felt252> = Vec::new();
    elems.push(th);
    let mut i: usize = 0;
    while i < vals.len()
        invariant
            i <= vals@.len(),
            all_wf(vals@),
            all_wf(elems@),
            felt_values(elems@) =~= seq![type_hash_value(struct_name@, names_of(fields@))]
                + felt_values(vals@.subrange(0, i as int)),
        decreases vals@.len() - i,
    {
        let f = vals[i].copy();
        let ghost old_elems = elems@;
        elems.push(f);
        assert(felt_values(elems@) =~= felt_values(old_elems).push(f@));
        assert(felt_values(vals@.subrange(0, i + 1)) =~= felt_values(vals@.subrange(0, i as int)).push(
            vals@[i as int]@,
        ));
        i = i + 1;
    }
    assert(vals@.subrange(0, vals@.len() as int) =~= vals@);
    hash_on_elements(elems.as_slice())
}

impl TypedMessage {
    /// The hash of this message's struct.
    pub fn struct_hash(&self) -> (r: Result<Felt252, EncodeError>)
        ensures
            r matches Ok(f) ==> f.wf() && message_struct_hash_value(*self) == Ok::<nat, EncodeError>(f@),
            r matches Err(e) ==> message_struct_hash_value(*self) == Err::<nat, EncodeError>(e),
    {
        let vals = encode_values(&self.values)?;
        Ok(struct_hash(self.primary_type.as_str(), &self.fields, &vals))
    }
}

fn domain_names() -> (r: Vec<String>)
    ensures
        names_of(r@) == domain_field_names(),
{
    proof {
        reveal_strlit("name");
        reveal_strlit("version");
        reveal_strlit("chainId");
    }
    let mut v: Vec<String> = Vec::new();
    v.push(String::from_str("name"));
    v.push(String::from_str("version"));
    v.push(String::from_str("chainId"));
    assert(v@[0]@ =~= seq!['n', 'a', 'm', 'e']);
    assert(v@[1]@ =~= seq!['v', 'e', 'r', 's', 'i', 'o', 'n']);
    assert(v@[2]@ =~= seq!['c', 'h', 'a', 'i', 'n', 'I', 'd']);
    assert(names_of(v@) =~= domain_field_names());
    v
}

/// The domain hash, by the domain's schema.
pub fn domain_hash(d: &Domain) -> (r: Felt252)
    requires
        d.wf(),
    ensures
        r.wf(),
        r@ == domain_hash_value(*d),
{
    proof {
        reveal_strlit("StarkNetDomain");
    }
    let names = domain_names();
    let mut vals: Vec<Felt252> = Vec::new();
    vals.push(d.name.copy());
    vals.push(d.version.copy());
    vals.push(d.chain_id.copy());
    assert(felt_values(vals@) =~= d.values());
    let r = struct_hash("StarkNetDomain", &names, &vals);
    assert("StarkNetDomain"@ =~= domain_type_name());
    r
}

/// The domain hash from the written-out type text of the domain.
pub fn manual_domain_hash(d: &Domain) -> (r: Felt252)
    requires
        d.wf(),
    ensures
        r.wf(),
        r@ == manual_domain_hash_value(*d),
{
    let th = keccak_of("StarkNetDomain(name:felt,version:felt,chainId:felt)".as_bytes());
    let mut elems: Vec<Felt252> = Vec::new();
    elems.push(th);
    elems.push(d.name.copy());
    elems.push(d.version.copy());
    elems.push(d.chain_id.copy());
    assert(felt_values(elems@) =~= seq![th@] + d.values());
    hash_on_elements(elems.as_slice())
}

/// The domain hash by the schema equals the one from the written-out type
/// text, for every domain.
pub proof fn lemma_domain_hash_paths_agree(d: Domain)
    ensures
        domain_hash_value(d) == manual_domain_hash_value(d),
{
    reveal_strlit("StarkNetDomain(name:felt,version:felt,chainId:felt)");
    reveal_with_fuel(field_list, 4);
    let names = domain_field_names();
    assert(names.drop_last().drop_last() =~= seq![names[0]]);
    assert(names.drop_last().last() == names[1]);
    assert(encode_type_text(domain_type_name(), names) =~= domain_type_text());
}

/// The message hash depends on the domain's values, the message and the
/// account alone: the same inputs give the same hash.
pub proof fn lemma_message_hash_deterministic(d1: Domain, d2: Domain, m: TypedMessage, account: nat)
    requires
        d1.values() == d2.values(),
    ensures
        message_hash_value(d1, m, account) == message_hash_value(d2, m, account),
{
}

/// The element that "StarkNet Message" packs into.
fn message_prefix() -> (r: Felt252)
    ensures
        r.wf(),
        r@ == message_prefix_value(),
{
    proof {
        reveal_strlit("StarkNet Message");
        is_ascii_chars_encode_utf8("StarkNet Message"@);
    }
    match encode_short_string("StarkNet Message") {
        Ok(f) => f,
        Err(_) => felt_from_u128(0),
    }
}

/// The signable hash of a message in a domain for an account. The domain
/// hash is checked against the written-out one before the message is
/// hashed.
pub fn message_hash(d: &Domain, m: &TypedMessage, account: &Felt252) -> (r: Result<Felt252, FlowError>)
    requires
        d.wf(),
        account.wf(),
    ensures
        message_hash_value(*d, *m, account@) is Ok <==> r is Ok,
        r matches Ok(h) ==> h.wf() && message_hash_value(*d, *m, account@) == Ok::<nat, EncodeError>(h@),
        r matches Err(e) ==> message_hash_value(*d, *m, account@) matches Err(ee) && e == flow_error_of(ee),
{
    let dh = domain_hash(d);
    let check = manual_domain_hash(d);
    proof {
        lemma_domain_hash_paths_agree(*d);
    }
    if !dh.equals(&check) {
        return Err(FlowError::SchemaMismatch);
    }
    let sh = match m.struct_hash() {
        Ok(h) => h,
        Err(e) => return Err(from_encode_error(e)),
    };
    let mut elems: Vec<Felt252> = Vec::new();
    elems.push(message_prefix());
    elems.push(dh);
    elems.push(account.copy());
    elems.push(sh);
    assert(felt_values(elems@) =~= seq![message_prefix_value(), domain_hash_value(*d), account@, sh@]);
    Ok(hash_on_elements(elems.as_slice()))
}

} // verus!
