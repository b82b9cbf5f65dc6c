use ethexec::codegen::{
    binary_expr, binary_expr_enum, binary_expr_item_struct, binary_expr_struct,
    binary_expr_variant, can_serialize, fields_named, fields_sequence, named_fields_sequence,
    render, replace_qualified, serialize_item, Delim, Field, Item, ItemKind, Token, Variant,
    VariantData,
};
use ethexec::hash::{Address, H256};
use ethexec::miner::{gas_limit_by_default, gas_price_by_default, MinerService, MinerStatus};
use ethexec::rpc::{
    api_names, http_listen_url, interface_address, plan_apis, Api, HttpConfiguration,
    IpcConfiguration,
};
use ethexec::schedule::Schedule;
use ethexec::text::{decimal, find_char, same_text, split};
use ethexec::transaction::{Action, SignedTransaction};
use ethexec::uint::U256;

#[test]
fn qualified_names() {
    assert_eq!(replace_qualified("Vec<u8>"), "Vec::<u8>");
    assert_eq!(replace_qualified("u64"), "u64");
    assert_eq!(replace_qualified("Map<K, Vec<V>>"), "Map::<K, Vec<V>>");
    assert_eq!(replace_qualified("<T>"), "::<T>");
    assert_eq!(replace_qualified(""), "");
}

fn field(name: Option<&str>, ty: &str) -> Field {
    Field {
        ident: name.map(|n| n.to_string()),
        ty: ty.to_string(),
        stripped: ty.trim_start_matches('&').to_string(),
        has_ptr: ty.starts_with('&'),
    }
}

fn id(s: &str) -> Token {
    Token::Ident(s.to_string())
}

fn offset(i: &str) -> Vec<Token> {
    vec![id("map"), Token::OpenDelim(Delim::Bracket), id(i), Token::CloseDelim(Delim::Bracket)]
}

#[test]
fn a_tuple_variant_is_read_field_by_field() {
    let fields = vec![field(None, "u8"), field(None, "[u8]"), field(None, "Vec<u64>")];
    let mut expected = vec![id("Kind::Some"), Token::OpenDelim(Delim::Paren)];
    // buffer[map[0]],
    expected.extend(vec![id("buffer"), Token::OpenDelim(Delim::Bracket)]);
    expected.extend(offset("0"));
    expected.extend(vec![Token::CloseDelim(Delim::Bracket), Token::Comma]);
    // buffer[map[1]..map[2]],
    expected.extend(vec![id("buffer"), Token::OpenDelim(Delim::Bracket)]);
    expected.extend(offset("1"));
    expected.push(Token::DotDot);
    expected.extend(offset("2"));
    expected.extend(vec![Token::CloseDelim(Delim::Bracket), Token::Comma]);
    // try!(Vec::<u64>::from_bytes(&buffer[map[2]..], length_stack)),
    expected.extend(vec![
        id("try!"),
        Token::OpenDelim(Delim::Paren),
        id("Vec::<u64>"),
        Token::ModSep,
        id("from_bytes"),
        Token::OpenDelim(Delim::Paren),
        Token::And,
        id("buffer"),
        Token::OpenDelim(Delim::Bracket),
    ]);
    expected.extend(offset("2"));
    expected.extend(vec![
        Token::DotDot,
        Token::CloseDelim(Delim::Bracket),
        Token::Comma,
        id("length_stack"),
        Token::CloseDelim(Delim::Paren),
        Token::CloseDelim(Delim::Paren),
        Token::Comma,
    ]);
    expected.push(Token::CloseDelim(Delim::Paren));
    assert_eq!(fields_sequence(&fields, "Kind::Some"), expected);
}

#[test]
fn named_fields_are_read_into_a_struct() {
    let fields = vec![field(Some("size"), "u8")];
    let mut value = vec![id("size"), Token::Colon, id("buffer"), Token::OpenDelim(Delim::Bracket)];
    value.extend(offset("0"));
    value.extend(vec![Token::CloseDelim(Delim::Bracket), Token::Comma]);

    let mut literal = vec![id("Self"), Token::OpenDelim(Delim::Brace)];
    literal.extend(value.clone());
    literal.push(Token::CloseDelim(Delim::Brace));
    assert_eq!(fields_sequence(&fields, "Self"), literal);

    let mut statement =
        vec![id("let"), id("result"), Token::Eq, id("Header"), Token::OpenDelim(Delim::Brace)];
    statement.extend(value);
    statement.push(Token::CloseDelim(Delim::Brace));
    assert_eq!(named_fields_sequence("Header", &fields), statement);

    assert_eq!(
        fields_sequence(&vec![], "Unit"),
        vec![id("Unit"), Token::OpenDelim(Delim::Paren), Token::CloseDelim(Delim::Paren)]
    );
}

#[test]
fn texts() {
    assert!(same_text("eth", "eth"));
    assert!(!same_text("eth", "etc"));
    assert!(!same_text("eth", "ethcore"));
    assert_eq!(find_char("a<b<c", '<'), Some(1));
    assert_eq!(find_char("abc", '<'), None);
    assert_eq!(split("web3,eth,,net", ','), vec!["web3", "eth", "", "net"]);
    assert_eq!(split("", ','), vec![""]);
    assert_eq!(split(",", ','), vec!["", ""]);
    assert_eq!(decimal(0), "0");
    assert_eq!(decimal(8545), "8545");
    assert_eq!(decimal(u64::MAX), "18446744073709551615");
}

fn http(enabled: bool, interface: &str, port: u16) -> HttpConfiguration {
    HttpConfiguration {
        enabled,
        interface: interface.to_string(),
        port,
        apis: "web3,eth".to_string(),
        cors: vec![],
    }
}

#[test]
fn where_the_server_listens() {
    assert_eq!(interface_address("all"), "0.0.0.0");
    assert_eq!(interface_address("local"), "127.0.0.1");
    assert_eq!(interface_address("10.1.2.3"), "10.1.2.3");
    assert_eq!(http_listen_url(&http(true, "local", 8545)), Some("127.0.0.1:8545".to_string()));
    assert_eq!(http_listen_url(&http(true, "all", 80)), Some("0.0.0.0:80".to_string()));
    assert_eq!(http_listen_url(&http(false, "all", 80)), None);
    let ipc = IpcConfiguration {
        enabled: true,
        socket_addr: "/tmp/jsonrpc.ipc".to_string(),
        apis: "eth".to_string(),
    };
    assert_eq!(api_names(&ipc.apis), vec!["eth"]);
}

#[test]
fn which_interfaces_are_offered() {
    assert_eq!(Api::from_name("web3"), Some(Api::Web3));
    assert_eq!(Api::from_name("net"), Some(Api::Net));
    assert_eq!(Api::from_name("eth"), Some(Api::Eth));
    assert_eq!(Api::from_name("personal"), Some(Api::Personal));
    assert_eq!(Api::from_name("ethcore"), Some(Api::Ethcore));
    assert_eq!(Api::from_name("traces"), Some(Api::Traces));
    assert_eq!(Api::from_name("Eth"), None);
    assert_eq!(Api::Ethcore.name(), "ethcore");
    assert_eq!(Api::Traces.version(), "1.0");
    let names = api_names("web3,eth,eth,traces");
    assert_eq!(plan_apis(&names), Ok(vec![Api::Web3, Api::Eth, Api::Eth, Api::Traces]));
    assert_eq!(plan_apis(&api_names("web3,shh,bzz")), Err(1));
    assert_eq!(plan_apis(&api_names("")), Err(0));
}

struct QuietMiner;

impl MinerService for QuietMiner {
    fn status(&self) -> MinerStatus {
        MinerStatus {
            transactions_in_pending_queue: 0,
            transactions_in_future_queue: 0,
            transactions_in_pending_block: 0,
        }
    }
    fn author(&self) -> Address {
        Address::zero()
    }
    fn set_author(&self, _author: Address) {}
    fn extra_data(&self) -> Vec<u8> {
        vec![]
    }
    fn set_extra_data(&self, _extra_data: Vec<u8>) {}
    fn minimal_gas_price(&self) -> U256 {
        U256::zero()
    }
    fn set_minimal_gas_price(&self, _min_gas_price: U256) {}
    fn gas_floor_target(&self) -> U256 {
        U256::zero()
    }
    fn set_gas_floor_target(&self, _target: U256) {}
    fn transactions_limit(&self) -> usize {
        0
    }
    fn set_transactions_limit(&self, _limit: usize) {}
    fn last_nonce(&self, _address: &Address) -> Option<U256> {
        None
    }
    fn pending_transactions_hashes(&self) -> Vec<H256> {
        vec![]
    }
    fn transaction(&self, _hash: &H256) -> Option<SignedTransaction> {
        None
    }
    fn all_transactions(&self) -> Vec<SignedTransaction> {
        vec![]
    }
    fn pending_transactions(&self) -> Vec<SignedTransaction> {
        vec![]
    }
}

struct KeenMiner;

impl MinerService for KeenMiner {
    fn status(&self) -> MinerStatus {
        MinerStatus {
            transactions_in_pending_queue: 1,
            transactions_in_future_queue: 0,
            transactions_in_pending_block: 0,
        }
    }
    fn author(&self) -> Address {
        Address::zero()
    }
    fn set_author(&self, _author: Address) {}
    fn extra_data(&self) -> Vec<u8> {
        vec![]
    }
    fn set_extra_data(&self, _extra_data: Vec<u8>) {}
    fn minimal_gas_price(&self) -> U256 {
        U256::zero()
    }
    fn set_minimal_gas_price(&self, _min_gas_price: U256) {}
    fn gas_floor_target(&self) -> U256 {
        U256::zero()
    }
    fn set_gas_floor_target(&self, _target: U256) {}
    fn transactions_limit(&self) -> usize {
        1
    }
    fn set_transactions_limit(&self, _limit: usize) {}
    fn last_nonce(&self, _address: &Address) -> Option<U256> {
        Some(U256::from_u64(7))
    }
    fn pending_transactions_hashes(&self) -> Vec<H256> {
        vec![H256::zero()]
    }
    fn transaction(&self, _hash: &H256) -> Option<SignedTransaction> {
        None
    }
    fn all_transactions(&self) -> Vec<SignedTransaction> {
        vec![]
    }
    fn pending_transactions(&self) -> Vec<SignedTransaction> {
        vec![]
    }
    fn sensible_gas_price(&self) -> U256 {
        U256::from_u64(5)
    }
}

#[test]
fn a_miner_may_suggest_a_price_of_its_own() {
    let miner = KeenMiner;
    assert_eq!(miner.sensible_gas_price(), U256::from_u64(5));
    assert_eq!(miner.sensible_gas_limit(), gas_limit_by_default());
    assert_eq!(gas_price_by_default(), U256::from_u64(20_000_000_000));
    assert_eq!(gas_limit_by_default(), U256::from_u64(21_000));
    assert_eq!(miner.pending_transactions_hashes(), vec![H256::zero()]);
    assert_eq!(miner.last_nonce(&Address::zero()), Some(U256::from_u64(7)));
}

#[test]
fn what_a_miner_suggests() {
    let miner = QuietMiner;
    assert_eq!(miner.sensible_gas_price(), U256::from_u64(20_000_000_000));
    assert_eq!(miner.sensible_gas_limit(), U256::from_u64(21_000));
    assert_eq!(miner.status().transactions_in_pending_queue, 0);
    assert!(miner.pending_transactions_hashes().is_empty());
    assert!(miner.transaction(&H256::zero()).is_none());
    assert!(miner.all_transactions().is_empty());
    assert!(miner.pending_transactions().is_empty());
}

#[test]
fn what_inclusion_costs() {
    let frontier = Schedule::new_frontier();
    let homestead = Schedule::new_homestead();
    let mut t = SignedTransaction {
        action: Action::Create,
        value: U256::zero(),
        data: vec![0x33, 0x31, 0x60, 0x00, 0x55],
        gas: U256::zero(),
        gas_price: U256::zero(),
        nonce: U256::zero(),
        sender: None,
    };
    assert_eq!(t.gas_required(&frontier), U256::from_u64(21_000 + 4 * 68 + 4));
    assert_eq!(t.gas_required(&homestead), U256::from_u64(53_000 + 4 * 68 + 4));
    t.action = Action::Call(Address::zero());
    assert_eq!(t.gas_required(&homestead), U256::from_u64(21_000 + 4 * 68 + 4));
    t.data = vec![];
    assert_eq!(t.gas_required(&frontier), U256::from_u64(21_000));
    assert_eq!(t.sender(), None);
}

#[test]
fn tokens_are_written_with_blanks_between() {
    let tokens = fields_sequence(&vec![field(None, "u8")], "V");
    assert_eq!(render(&tokens), "V ( buffer [ map [ 0 ] ] , ) ");
    assert_eq!(render(&vec![]), "");
    assert_eq!(
        render(&vec![Token::And, Token::Eq, Token::ModSep, Token::DotDot, Token::Colon]),
        "& = :: .. : "
    );
}

const SIZED: &str = "match Vec::<u64>::len_params() { 0 => mem::size_of::<Vec<u64>>(), _ => ";

#[test]
fn a_struct_is_sized_written_and_read_field_by_field() {
    let fields = vec![field(Some("kind"), "u8"), field(Some("data"), "[u8]"), field(Some("more"), "Vec<u64>")];
    assert!(fields_named(&fields));
    let exprs = binary_expr_struct("Packet", &fields, Some("self"), None);
    assert_eq!(
        exprs.size,
        format!("0usize + 1 + self.data.len() + {}self.more.size(), }}", SIZED)
    );
    assert_eq!(
        exprs.write,
        format!(
            "{{ let mut offset = 0usize; \
             let next_line = offset + 1; buffer[offset] = self.kind; offset = next_line; \
             let size = self.data.len(); let next_line = offset + size; \
             length_stack.push_back(size); \
             buffer[offset..next_line].clone_from_slice(self.data); offset = next_line; \
             let next_line = offset + {}{{ let size = self.more.size(); \
             length_stack.push_back(size); size }}, }}; \
             if let Err(e) = self.more.to_bytes(&mut buffer[offset..next_line], length_stack) \
             {{ return Err(e) }}; offset = next_line; Ok(()) }}",
            SIZED
        )
    );
    assert_eq!(
        exprs.read,
        format!(
            "{{ let mut map = vec![0usize; 3]; let mut total = 0usize; \
             map[0] = total; total += 1; \
             map[1] = total; let size = length_stack.pop_front().unwrap(); total += size; \
             map[2] = total; let size = {}length_stack.pop_front().unwrap(), }}; total += size; \
             {}; Ok(result) }}",
            SIZED,
            render(&named_fields_sequence("Packet", &fields))
        )
    );
    let by_kind = binary_expr_item_struct("Packet", &VariantData::Struct(fields));
    assert!(matches!(by_kind, Ok(ref e) if e.size == exprs.size && e.read == exprs.read));
}

#[test]
fn nothing_is_read_into_a_reference() {
    let fields = vec![field(Some("name"), "&str")];
    let exprs = binary_expr_struct("Named", &fields, Some("self"), None);
    assert_eq!(exprs.read, "Err(::ipc::binary::BinaryConvertError)");
    assert_eq!(
        exprs.size,
        "0usize + match str::len_params() { 0 => mem::size_of::<str>(), _ => self.name.size(), }"
    );
}

fn some_enum() -> Vec<Variant> {
    vec![
        Variant { name: "Empty".to_string(), data: VariantData::Unit },
        Variant { name: "Byte".to_string(), data: VariantData::Tuple(vec![field(None, "u8")]) },
        Variant {
            name: "Named".to_string(),
            data: VariantData::Struct(vec![field(Some("bytes"), "[u8]")]),
        },
    ]
}

#[test]
fn each_variant_has_its_arms() {
    let variants = some_enum();
    let unit = binary_expr_variant("Kind", "Kind", &variants[0], 0);
    assert_eq!(unit.size, "Kind::Empty => { 0usize }");
    assert_eq!(unit.write, "Kind::Empty => { buffer[0] = 0; Ok(()) }");
    assert_eq!(unit.read, "0 => { Ok(Kind::Empty) }");
    let tuple = binary_expr_variant("Kind", "Kind", &variants[1], 1);
    assert_eq!(tuple.size, "Kind::Byte(ref __field0, ) => { 0usize + 1 }");
    assert_eq!(
        tuple.write,
        "Kind::Byte(ref __field0, ) => { buffer[0] = 1; let buffer = &mut buffer[1..]; \
         { let mut offset = 0usize; let next_line = offset + 1; buffer[offset] = __field0; \
         offset = next_line; Ok(()) } }"
    );
    assert_eq!(
        tuple.read,
        "1 => { { let mut map = vec![0usize; 1]; let mut total = 0usize; map[0] = total; \
         total += 1; Ok(Kind::Byte ( buffer [ map [ 0 ] ] , ) ) } }"
    );
    let named = binary_expr_variant("Kind", "Kind", &variants[2], 2);
    assert_eq!(named.size, "Kind::Named { bytes: ref __field0, } => { 0usize + __field0.len() }");
    assert_eq!(
        named.read,
        "2 => { { let mut map = vec![0usize; 1]; let mut total = 0usize; map[0] = total; \
         let size = length_stack.pop_front().unwrap(); total += size; \
         Ok(Kind::Named { bytes : buffer [ map [ 0 ] .. ] , } ) } }"
    );
}

#[test]
fn an_enum_takes_a_byte_for_the_place_of_its_variant() {
    let variants = some_enum();
    let exprs = binary_expr_enum("Kind", "Kind", &variants);
    let arms: Vec<_> =
        variants.iter().enumerate().map(|(i, v)| binary_expr_variant("Kind", "Kind", v, i)).collect();
    assert_eq!(
        exprs.size,
        format!("1usize + match *self {{ {}, {}, {}, }}", arms[0].size, arms[1].size, arms[2].size)
    );
    assert_eq!(
        exprs.write,
        format!("match *self {{ {}, {}, {}, }};", arms[0].write, arms[1].write, arms[2].write)
    );
    assert_eq!(
        exprs.read,
        format!(
            "match buffer[0] {{ {}, {}, {}, _ => {{ Err(BinaryConvertError) }} }}",
            arms[0].read, arms[1].read, arms[2].read
        )
    );
    assert_eq!(binary_expr_enum("Never", "Never", &vec![]).size, "1usize + match *self { }");
}

fn item(kind: ItemKind) -> Item {
    Item {
        ident: "Kind".to_string(),
        generics: "<T>".to_string(),
        ty: "Kind<T>".to_string(),
        where_clause: "where T: Copy".to_string(),
        kind,
    }
}

#[test]
fn the_implementation_is_written_for_structs_and_enums() {
    let an_enum = item(ItemKind::Enum(some_enum()));
    assert!(can_serialize(&an_enum));
    let exprs = match binary_expr(&an_enum) {
        Ok(exprs) => exprs,
        Err(_) => panic!("an enum has its expressions"),
    };
    let code = match serialize_item(&an_enum) {
        Ok(code) => code,
        Err(_) => panic!("an enum can be serialized"),
    };
    assert_eq!(
        code,
        format!(
            "impl <T> ::ipc::BinaryConvertable for Kind<T> where T: Copy {{ \
             fn size(&self) -> usize {{ {} }} \
             fn to_bytes(&self, buffer: &mut [u8], length_stack: &mut VecDeque<usize>) \
             -> Result<(), BinaryConvertError> {{ {} }} \
             fn from_bytes(buffer: &[u8], length_stack: &mut VecDeque<usize>) \
             -> Result<Self, BinaryConvertError> {{ {} }} \
             fn len_params() -> usize {{ 1 }} }}",
            exprs.size, exprs.write, exprs.read
        )
    );
    let other = item(ItemKind::Other);
    assert!(can_serialize(&other));
    assert!(serialize_item(&other).is_err());
    assert!(!can_serialize(&item(ItemKind::Struct(VariantData::Unit))));
    assert!(!can_serialize(&item(ItemKind::Struct(VariantData::Tuple(vec![field(None, "u8")])))));
    assert!(!can_serialize(&item(ItemKind::Struct(VariantData::Struct(vec![])))));
    assert!(can_serialize(&item(ItemKind::Struct(VariantData::Struct(vec![field(
        Some("a"),
        "u8"
    )])))));
    assert!(!can_serialize(&item(ItemKind::Enum(vec![Variant {
        name: "V".to_string(),
        data: VariantData::Tuple(vec![]),
    }]))));
}
