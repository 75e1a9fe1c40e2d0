//! Adapters: what they are, read out of their description.

use vstd::prelude::*;

use crate::device::HCIDevInfo;
use crate::hci::BDAddr;

verus! {

/// The kind of a Bluetooth controller.
#[derive(Debug, Copy, Clone, PartialEq, Eq, Structural)]
pub enum AdapterType {
    BrEdr,
    Amp,
    Unknown(u8),
}

impl AdapterType {
    /// The kind with the number `typ`.
    pub open spec fn spec_parse(typ: u8) -> AdapterType {
        if typ == 0 {
            AdapterType::BrEdr
        } else if typ == 1 {
            AdapterType::Amp
        } else {
            AdapterType::Unknown(typ)
        }
    }

    /// The number of a kind.
    pub open spec fn spec_num(self) -> u8 {
        match self {
            AdapterType::BrEdr => 0,
            AdapterType::Amp => 1,
            AdapterType::Unknown(x) => x,
        }
    }

    /// The kind that `typ` stands for.
    pub fn parse(typ: u8) -> (parsed: AdapterType)
        ensures
            parsed == Self::spec_parse(typ),
    {
        match typ {
            0 => AdapterType::BrEdr,
            1 => AdapterType::Amp,
            x => AdapterType::Unknown(x),
        }
    }

    /// The number that stands for this kind.
    pub fn num(&self) -> (n: u8)
        ensures
            n == self.spec_num(),
    {
        match *self {
            AdapterType::BrEdr => 0,
            AdapterType::Amp => 1,
            AdapterType::Unknown(x) => x,
        }
    }
}

/// Reading a number and writing it again gives the number back.
pub proof fn law_type_parse_num(typ: u8)
    ensures
        AdapterType::spec_parse(typ).spec_num() == typ,
{
}

/// Writing a kind and reading it again gives the kind back, unless it is an unknown
/// kind with the number of a known one.
pub proof fn law_type_num_parse(kind: AdapterType)
    requires
        kind != AdapterType::Unknown(0),
        kind != AdapterType::Unknown(1),
    ensures
        AdapterType::spec_parse(kind.spec_num()) == kind,
{
}

/// 0 and 1 are the numbers of the known kinds; every other number is the number of an
/// unknown kind that holds it.
pub proof fn law_type_of_number(typ: u8)
    ensures
        AdapterType::spec_parse(typ) == AdapterType::BrEdr <==> typ == 0,
        AdapterType::spec_parse(typ) == AdapterType::Amp <==> typ == 1,
        AdapterType::spec_parse(typ) == AdapterType::Unknown(typ) <==> typ >= 2,
{
}

/// An unknown kind has the number that it holds, and the known kinds have 0 and 1.
pub proof fn law_number_of_type(kind: AdapterType)
    ensures
        kind is BrEdr ==> kind.spec_num() == 0,
        kind is Amp ==> kind.spec_num() == 1,
        kind is Unknown ==> kind == AdapterType::Unknown(kind.spec_num()),
{
}

/// Something that holds of an adapter at a moment.
#[derive(Hash, Debug, Copy, Clone, PartialEq, Eq, Structural)]
pub enum AdapterState {
    Up,
    Init,
    Running,
    Raw,
    PScan,
    IScan,
    Inquiry,
    Auth,
    Encrypt,
}

impl AdapterState {
    /// The bit of an adapter's flags that tells whether the state holds.
    pub open spec fn bit(self) -> u32 {
        match self {
            AdapterState::Up => 0,
            AdapterState::Init => 1,
            AdapterState::Running => 2,
            AdapterState::Raw => 3,
            AdapterState::PScan => 4,
            AdapterState::IScan => 5,
            AdapterState::Inquiry => 6,
            AdapterState::Auth => 7,
            AdapterState::Encrypt => 8,
        }
    }

    /// Whether the state's bit is set in `flags`.
    pub open spec fn set_in(self, flags: u32) -> bool {
        flags & (1u32 << self.bit()) != 0
    }

    /// The states whose bits are set in `flags`.
    pub open spec fn spec_parse(flags: u32) -> Set<AdapterState> {
        Set::new(|s: AdapterState| s.set_in(flags))
    }

    /// Reads the states out of an adapter's flags.
    pub fn parse(flags: u32) -> (set: AdapterStates)
        ensures
            set@ == Self::spec_parse(flags),
    {
        let states: [AdapterState; 9] = [
            AdapterState::Up,
            AdapterState::Init,
            AdapterState::Running,
            AdapterState::Raw,
            AdapterState::PScan,
            AdapterState::IScan,
            AdapterState::Inquiry,
            AdapterState::Auth,
            AdapterState::Encrypt,
        ];
        let mut found: Vec<AdapterState> = Vec::new();
        let mut i: usize = 0;
        while i < 9
            invariant
                i <= 9,
                forall|j: int| 0 <= j < 9 ==> (#[trigger] states@[j]).bit() == j,
                forall|s: AdapterState| #[trigger]
                    found@.contains(s) <==> s.bit() < i && s.set_in(flags),
                found@.no_duplicates(),
            decreases 9 - i,
        {
            let state = states[i];
            let ghost before = found@;
            assert(i & 31 == i) by (bit_vector)
                requires
                    i < 9,
            ;
            assert(!before.contains(state));
            if flags & (1u32 << (i & 31)) != 0 {
                found.push(state);
            }
            proof {
                assert forall|s: AdapterState| #[trigger]
                    found@.contains(s) <==> s.bit() < i + 1 && s.set_in(flags) by {
                    if s.bit() == i {
                        assert(s == state);
                    }
                    if found@ != before {
                        assert(found@ == before.push(state));
                        assert(found@[before.len() as int] == state);
                        if before.contains(s) {
                            let j = choose|j: int| 0 <= j < before.len() && before[j] == s;
                            assert(found@[j] == s);
                        }
                    }
                }
            }
            i = i + 1;
        }
        let set = AdapterStates { states: found };
        assert(set@ =~= Self::spec_parse(flags));
        set
    }
}

/// A set of adapter states.
#[derive(Debug)]
pub struct AdapterStates {
    states: Vec<AdapterState>,
}

impl View for AdapterStates {
    type V = Set<AdapterState>;

    closed spec fn view(&self) -> Set<AdapterState> {
        self.states@.to_set()
    }
}

impl AdapterStates {
    /// No state is held twice.
    #[verifier::type_invariant]
    spec fn inv(self) -> bool {
        self.states@.no_duplicates()
    }

    /// Whether `state` is in the set.
    pub fn contains(&self, state: &AdapterState) -> (found: bool)
        ensures
            found == self@.contains(*state),
    {
        let mut i: usize = 0;
        while i < self.states.len()
            invariant
                i <= self.states@.len(),
                forall|j: int| 0 <= j < i ==> self.states@[j] != *state,
            decreases self.states@.len() - i,
        {
            if self.states[i] == *state {
                assert(self.states@.contains(*state));
                return true;
            }
            i = i + 1;
        }
        false
    }

    /// The members, each once.
    pub fn to_vec(&self) -> (members: Vec<AdapterState>)
        ensures
            members@.to_set() == self@,
            members@.no_duplicates(),
    {
        proof {
            use_type_invariant(self);
        }
        vstd::slice::slice_to_vec(self.states.as_slice())
    }
}

impl Clone for AdapterStates {
    fn clone(&self) -> (copy: Self)
        ensures
            copy@ == self@,
    {
        AdapterStates { states: self.to_vec() }
    }
}

/// A Bluetooth adapter of this machine.
#[derive(Debug)]
pub struct Adapter {
    pub name: String,
    pub dev_id: u16,
    pub addr: BDAddr,
    pub typ: AdapterType,
    pub states: AdapterStates,
}

/// The byte that a C character stands for: characters are signed, bytes are not.
pub open spec fn c_byte(c: i8) -> u8 {
    if c < 0 {
        (c + 256) as u8
    } else {
        c as u8
    }
}

/// `len` is the length of the C string in `chars`: the place of its first zero.
pub open spec fn c_str_len(chars: Seq<i8>, len: int) -> bool {
    &&& 0 <= len < chars.len()
    &&& chars[len] == 0
    &&& forall|i: int| 0 <= i < len ==> chars[i] != 0
}

/// The text of the C string in `chars`: the characters that its bytes encode in
/// UTF-8. It is missing where no zero ends the string, or its bytes are not UTF-8.
pub open spec fn c_str_text(chars: Seq<i8>) -> Option<Seq<char>> {
    if exists|len: int| c_str_len(chars, len) {
        let len = choose|len: int| c_str_len(chars, len);
        let bytes = chars.take(len).map_values(|c: i8| c_byte(c));
        if vstd::utf8::valid_utf8(bytes) {
            Some(vstd::utf8::decode_utf8(bytes))
        } else {
            None
        }
    } else {
        None
    }
}

/// `String::from_utf8`: the text that `bytes` encode in UTF-8, where they do.
#[verifier::external_body]
fn text_from_utf8(bytes: Vec<u8>) -> (text: Option<String>)
    ensures
        text is Some <==> vstd::utf8::valid_utf8(bytes@),
        text matches Some(s) ==> s@ == vstd::utf8::decode_utf8(bytes@),
{
    String::from_utf8(bytes).ok()
}

/// The text of the C string in `chars`.
pub fn c_str_to_text(chars: &[i8; 8]) -> (text: Option<String>)
    ensures
        text is Some <==> c_str_text(chars@) is Some,
        text matches Some(s) ==> c_str_text(chars@) == Some(s@),
{
    let mut bytes: Vec<u8> = Vec::new();
    let mut len: usize = 0;
    while len < 8 && chars[len] != 0
        invariant
            len <= 8,
            chars@.len() == 8,
            forall|i: int| 0 <= i < len ==> chars@[i] != 0,
            bytes@ == chars@.take(len as int).map_values(|c: i8| c_byte(c)),
        decreases 8 - len,
    {
        let c: i8 = chars[len];
        assert(c < 0 ==> c as u8 == c + 256) by (bit_vector);
        bytes.push(c as u8);
        len = len + 1;
        assert(bytes@ =~= chars@.take(len as int).map_values(|c: i8| c_byte(c)));
    }
    if len == 8 {
        return None;
    }
    proof {
        assert(c_str_len(chars@, len as int));
        let n = choose|n: int| c_str_len(chars@, n);
        assert(n == len);
    }
    text_from_utf8(bytes)
}

impl Adapter {
    /// This adapter is the one that `di` describes. Its number is always 0.
    pub open spec fn described_by(self, di: HCIDevInfo) -> bool {
        &&& c_str_text(di.name@) == Some(self.name@)
        &&& self.dev_id == 0
        &&& self.addr == di.bdaddr
        &&& self.typ == AdapterType::spec_parse(di.type_ / 16 % 4)
        &&& self.states@ == AdapterState::spec_parse(di.flags)
    }

    /// Reads an adapter out of its description.
    pub fn from_device_info(di: &HCIDevInfo) -> (adapter: Adapter)
        requires
            c_str_text(di.name@) is Some,
        ensures
            adapter.described_by(*di),
            adapter.dev_id == 0,
            adapter.addr == di.bdaddr,
            adapter.typ.spec_num() == di.type_ / 16 % 4,
    {
        let name = c_str_to_text(&di.name);
        let type_ = di.type_;
        assert((type_ & 0x30) >> 4 == type_ / 16 % 4) by (bit_vector);
        Adapter {
            name: name.unwrap(),
            dev_id: 0,
            addr: di.bdaddr,
            typ: AdapterType::parse((di.type_ & 0x30) >> 4),
            states: AdapterState::parse(di.flags),
        }
    }

    /// Reads an adapter out of the kernel's answer to `HCIDevInfo::request`. An error
    /// is handed on.
    pub fn from_dev_id<E>(answer: Result<HCIDevInfo, E>) -> (adapter: Result<Adapter, E>)
        requires
            answer matches Ok(di) ==> c_str_text(di.name@) is Some,
        ensures
            match answer {
                Ok(di) => adapter matches Ok(a) && a.described_by(di) && a.addr == di.bdaddr,
                Err(e) => adapter == Err::<Adapter, E>(e),
            },
    {
        match answer {
            Ok(di) => Ok(Adapter::from_device_info(&di)),
            Err(e) => Err(e),
        }
    }

    /// Whether the adapter is up.
    pub fn is_up(&self) -> (up: bool)
        ensures
            up == self.states@.contains(AdapterState::Up),
    {
        self.states.contains(&AdapterState::Up)
    }
}

impl Clone for Adapter {
    fn clone(&self) -> (copy: Self)
        ensures
            copy.same(*self),
            copy.name@ == self.name@,
            copy.dev_id == self.dev_id,
            copy.addr == self.addr,
            copy.typ == self.typ,
            copy.states@ == self.states@,
    {
        Adapter {
            name: self.name.clone(),
            dev_id: self.dev_id,
            addr: self.addr,
            typ: self.typ,
            states: self.states.clone(),
        }
    }
}

impl Adapter {
    /// Two adapters with the same name, number, address, kind and states.
    pub open spec fn same(self, other: Adapter) -> bool {
        &&& self.name@ == other.name@
        &&& self.dev_id == other.dev_id
        &&& self.addr == other.addr
        &&& self.typ == other.typ
        &&& self.states@ == other.states@
    }
}

/// Only the lowest nine flags tell states.
pub proof fn law_states_low_flags(f: u32, g: u32)
    requires
        f % 512 == g % 512,
    ensures
        AdapterState::spec_parse(f) == AdapterState::spec_parse(g),
{
    assert forall|s: AdapterState| s.set_in(f) == s.set_in(g) by {
        let b = s.bit();
        assert(f & (1u32 << b) == g & (1u32 << b)) by (bit_vector)
            requires
                f % 512 == g % 512,
                b < 9,
        ;
    }
    assert(AdapterState::spec_parse(f) =~= AdapterState::spec_parse(g));
}

/// No two combinations of the lowest nine flags tell the same states.
pub proof fn law_states_of_flags_distinct(f: u32, g: u32)
    requires
        f < 512,
        g < 512,
        AdapterState::spec_parse(f) == AdapterState::spec_parse(g),
    ensures
        f == g,
{
    let p = AdapterState::spec_parse(f);
    assert forall|s: AdapterState| s.set_in(f) == s.set_in(g) by {
        assert(p.contains(s) == s.set_in(f));
        assert(p.contains(s) == s.set_in(g));
    }
    assert(AdapterState::Up.set_in(f) == AdapterState::Up.set_in(g));
    assert(AdapterState::Init.set_in(f) == AdapterState::Init.set_in(g));
    assert(AdapterState::Running.set_in(f) == AdapterState::Running.set_in(g));
    assert(AdapterState::Raw.set_in(f) == AdapterState::Raw.set_in(g));
    assert(AdapterState::PScan.set_in(f) == AdapterState::PScan.set_in(g));
    assert(AdapterState::IScan.set_in(f) == AdapterState::IScan.set_in(g));
    assert(AdapterState::Inquiry.set_in(f) == AdapterState::Inquiry.set_in(g));
    assert(AdapterState::Auth.set_in(f) == AdapterState::Auth.set_in(g));
    assert(AdapterState::Encrypt.set_in(f) == AdapterState::Encrypt.set_in(g));
    assert(f == g) by (bit_vector)
        requires
            f < 512,
            g < 512,
            (f & (1u32 << 0u32) != 0) == (g & (1u32 << 0u32) != 0),
            (f & (1u32 << 1u32) != 0) == (g & (1u32 << 1u32) != 0),
            (f & (1u32 << 2u32) != 0) == (g & (1u32 << 2u32) != 0),
            (f & (1u32 << 3u32) != 0) == (g & (1u32 << 3u32) != 0),
            (f & (1u32 << 4u32) != 0) == (g & (1u32 << 4u32) != 0),
            (f & (1u32 << 5u32) != 0) == (g & (1u32 << 5u32) != 0),
            (f & (1u32 << 6u32) != 0) == (g & (1u32 << 6u32) != 0),
            (f & (1u32 << 7u32) != 0) == (g & (1u32 << 7u32) != 0),
            (f & (1u32 << 8u32) != 0) == (g & (1u32 << 8u32) != 0),
    ;
}

/// An adapter read out of a description is up just where the lowest flag is set.
pub proof fn law_up_is_lowest_flag(adapter: Adapter, di: HCIDevInfo)
    requires
        adapter.described_by(di),
    ensures
        adapter.states@.contains(AdapterState::Up) <==> di.flags % 2 == 1,
{
    let flags = di.flags;
    assert((flags & (1u32 << 0u32) != 0) == (flags % 2 == 1)) by (bit_vector);
}

/// The kind read out of a description is known, or has number 2 or 3: it never is an
/// unknown kind with a known kind's number, and so survives writing and reading.
pub proof fn law_described_type_round_trips(adapter: Adapter, di: HCIDevInfo)
    requires
        adapter.described_by(di),
    ensures
        adapter.typ.spec_num() < 4,
        AdapterType::spec_parse(adapter.typ.spec_num()) == adapter.typ,
{
}

/// Each state holds just where its binary digit of the flags is 1: they stand for the
/// digits from the lowest on, in this order.
pub proof fn law_states_are_digits(flags: u32)
    ensures
        ({
            let states = AdapterState::spec_parse(flags);
            &&& states.contains(AdapterState::Up) <==> flags % 2 == 1
            &&& states.contains(AdapterState::Init) <==> flags / 2 % 2 == 1
            &&& states.contains(AdapterState::Running) <==> flags / 4 % 2 == 1
            &&& states.contains(AdapterState::Raw) <==> flags / 8 % 2 == 1
            &&& states.contains(AdapterState::PScan) <==> flags / 16 % 2 == 1
            &&& states.contains(AdapterState::IScan) <==> flags / 32 % 2 == 1
            &&& states.contains(AdapterState::Inquiry) <==> flags / 64 % 2 == 1
            &&& states.contains(AdapterState::Auth) <==> flags / 128 % 2 == 1
            &&& states.contains(AdapterState::Encrypt) <==> flags / 256 % 2 == 1
        }),
{
    assert((flags & (1u32 << 0u32) != 0) == (flags % 2 == 1)) by (bit_vector);
    assert((flags & (1u32 << 1u32) != 0) == (flags / 2 % 2 == 1)) by (bit_vector);
    assert((flags & (1u32 << 2u32) != 0) == (flags / 4 % 2 == 1)) by (bit_vector);
    assert((flags & (1u32 << 3u32) != 0) == (flags / 8 % 2 == 1)) by (bit_vector);
    assert((flags & (1u32 << 4u32) != 0) == (flags / 16 % 2 == 1)) by (bit_vector);
    assert((flags & (1u32 << 5u32) != 0) == (flags / 32 % 2 == 1)) by (bit_vector);
    assert((flags & (1u32 << 6u32) != 0) == (flags / 64 % 2 == 1)) by (bit_vector);
    assert((flags & (1u32 << 7u32) != 0) == (flags / 128 % 2 == 1)) by (bit_vector);
    assert((flags & (1u32 << 8u32) != 0) == (flags / 256 % 2 == 1)) by (bit_vector);
}

/// `bytes` stand at the beginning of `chars`, hold no zero, and a zero follows them.
/// A byte from 128 on stands as the negative character 256 below it.
pub open spec fn stands_in(bytes: Seq<u8>, chars: Seq<i8>) -> bool {
    &&& bytes.len() < chars.len()
    &&& chars[bytes.len() as int] == 0
    &&& forall|i: int|
        0 <= i < bytes.len() ==> {
            &&& #[trigger] bytes[i] != 0
            &&& chars[i] == bytes[i] || chars[i] == bytes[i] - 256
        }
}

/// A C string has a text if and only if the text's UTF-8 bytes stand in it, up to its
/// zero: no byte is lost, added or changed.
pub proof fn law_c_str_holds_its_text(chars: Seq<i8>, text: Seq<char>)
    ensures
        c_str_text(chars) == Some(text) <==> stands_in(vstd::utf8::encode_utf8(text), chars),
{
    let bytes = vstd::utf8::encode_utf8(text);
    if c_str_text(chars) == Some(text) {
        let len = choose|len: int| c_str_len(chars, len);
        let held = chars.take(len).map_values(|c: i8| c_byte(c));
        vstd::utf8::decode_utf8_encode_utf8(held);
        assert(bytes == held);
        assert forall|i: int| 0 <= i < bytes.len() implies {
            &&& #[trigger] bytes[i] != 0
            &&& chars[i] == bytes[i] || chars[i] == bytes[i] - 256
        } by {
            assert(chars[i] != 0);
            assert(bytes[i] == c_byte(chars[i]));
        }
    }
    if stands_in(bytes, chars) {
        let n = bytes.len() as int;
        assert forall|i: int| 0 <= i < n implies chars[i] != 0 && bytes[i] == c_byte(
            #[trigger] chars[i],
        ) by {
            assert(bytes[i] != 0);
        }
        assert(c_str_len(chars, n));
        let len = choose|len: int| c_str_len(chars, len);
        assert(len == n);
        assert(chars.take(len).map_values(|c: i8| c_byte(c)) =~= bytes);
        vstd::utf8::encode_utf8_valid_utf8(text);
        vstd::utf8::encode_utf8_decode_utf8(text);
    }
}

/// An adapter read out of a description has the described address, the text of the
/// described name, the kind in the two bits from the fifth on, and the states of the
/// flags.
pub proof fn law_described_adapter(adapter: Adapter, di: HCIDevInfo)
    requires
        adapter.described_by(di),
    ensures
        adapter.addr == di.bdaddr,
        forall|i: int|
            0 <= i < 6 ==> #[trigger] adapter.addr.address@[i] == di.bdaddr.address@[i],
        adapter.dev_id == 0,
        stands_in(vstd::utf8::encode_utf8(adapter.name@), di.name@),
        adapter.typ.spec_num() == di.type_ / 16 % 4,
        adapter.typ is BrEdr <==> di.type_ / 16 % 4 == 0,
        adapter.typ is Amp <==> di.type_ / 16 % 4 == 1,
        adapter.states@.contains(AdapterState::Up) <==> di.flags % 2 == 1,
        adapter.states@.contains(AdapterState::Init) <==> di.flags / 2 % 2 == 1,
        adapter.states@.contains(AdapterState::Running) <==> di.flags / 4 % 2 == 1,
        adapter.states@.contains(AdapterState::Raw) <==> di.flags / 8 % 2 == 1,
        adapter.states@.contains(AdapterState::PScan) <==> di.flags / 16 % 2 == 1,
        adapter.states@.contains(AdapterState::IScan) <==> di.flags / 32 % 2 == 1,
        adapter.states@.contains(AdapterState::Inquiry) <==> di.flags / 64 % 2 == 1,
        adapter.states@.contains(AdapterState::Auth) <==> di.flags / 128 % 2 == 1,
        adapter.states@.contains(AdapterState::Encrypt) <==> di.flags / 256 % 2 == 1,
{
    law_c_str_holds_its_text(di.name@, adapter.name@);
    law_states_are_digits(di.flags);
}

/// Descriptions with different addresses give adapters with different addresses, and
/// descriptions with the same address give adapters with the same.
pub proof fn law_described_addresses_differ(
    a1: Adapter,
    di1: HCIDevInfo,
    a2: Adapter,
    di2: HCIDevInfo,
)
    requires
        a1.described_by(di1),
        a2.described_by(di2),
    ensures
        a1.addr == a2.addr <==> di1.bdaddr == di2.bdaddr,
{
}

/// Adapters that are the same have the same name, number, address, kind and states.
pub proof fn law_same_adapters(a: Adapter, b: Adapter)
    ensures
        a.same(b) <==> {
            &&& a.name@ == b.name@
            &&& a.dev_id == b.dev_id
            &&& a.addr == b.addr
            &&& a.typ == b.typ
            &&& a.states@ == b.states@
        },
{
}

} // verus!
