//! What the client knows without asking the ledger: the account of the
//! contract, its own account and sequence number, the names of the
//! resources it reads, and the calls it makes.

use crate::book::{assemble_book, assembled, deref_option, OrderBook, OrderBookView};
use crate::error::Error;
use crate::fields::{deserialize_from_str, field, get_field, object_members, read_object, text_u64};
use crate::json::{DecodeError, Json};
use crate::submit::Submitter;
use crate::types::{Address, address_bytes, address_of_text, Id, short_text, Side, TimeInForce};
use crate::wire::{bcs_bool, bcs_u64, bcs_u8, le_bytes_u64};
use vstd::prelude::*;
use vstd::string::*;

verus! {

/// A call of an entry function of a contract.
#[derive(Debug)]
pub struct EntryFunction {
    /// The account that holds the module.
    pub module_address: Address,
    pub module_name: String,
    pub function: String,
    /// The type arguments, each as the text of its type.
    pub type_args: Vec<String>,
    /// The arguments, each in its binary form.
    pub args: Vec<Vec<u8>>,
}

/// What a call holds, as a mathematical value.
pub struct EntryFunctionView {
    pub module_address: Address,
    pub module_name: Seq<char>,
    pub function: Seq<char>,
    pub type_args: Seq<Seq<char>>,
    pub args: Seq<Seq<u8>>,
}

impl View for EntryFunction {
    type V = EntryFunctionView;

    open spec fn view(&self) -> EntryFunctionView {
        EntryFunctionView {
            module_address: self.module_address,
            module_name: self.module_name@,
            function: self.function@,
            type_args: self.type_args@.map_values(|t: String| t@),
            args: self.args@.map_values(|a: Vec<u8>| a@),
        }
    }
}

/// A call of the function `function` of the module `book` at `contract`.
pub open spec fn book_call(
    contract: Address,
    function: Seq<char>,
    type_args: Seq<Seq<char>>,
    args: Seq<Seq<u8>>,
) -> EntryFunctionView {
    EntryFunctionView {
        module_address: contract,
        module_name: "book"@,
        function,
        type_args,
        args,
    }
}

/// Makes a call of a function of the module `book`.
fn make_book_call(
    contract: Address,
    function: &str,
    type_args: Vec<String>,
    args: Vec<Vec<u8>>,
) -> (r: EntryFunction)
    ensures
        r@ == book_call(
            contract,
            function@,
            type_args@.map_values(|t: String| t@),
            args@.map_values(|a: Vec<u8>| a@),
        ),
{
    EntryFunction {
        module_address: contract,
        module_name: "book".to_owned(),
        function: function.to_owned(),
        type_args,
        args,
    }
}

/// The two coin types of a book as type arguments, base before quote.
fn coin_types(base: &str, quote: &str) -> (r: Vec<String>)
    ensures
        r@.map_values(|t: String| t@) == seq![base@, quote@],
{
    let mut out: Vec<String> = Vec::new();
    out.push(base.to_owned());
    out.push(quote.to_owned());
    assert(out@.map_values(|t: String| t@) =~= seq![base@, quote@]);
    out
}

/// The client's knowledge of itself.
#[derive(Clone, Copy, Debug, PartialEq, Eq, Structural)]
pub struct LaminarClient {
    /// The account that holds the contract.
    pub laminar: Address,
    /// The account of the user.
    pub account: Address,
    /// The chain that the node serves.
    pub chain_id: u8,
    /// The local sequence number of the user's account.
    pub sequence_number: u64,
}

impl LaminarClient {
    /// A client for the contract at `laminar` and the user at `account`,
    /// with the chain and the sequence number that the node told.
    pub fn connect(laminar: Address, account: Address, chain_id: u8, sequence_number: u64) -> (r:
        LaminarClient)
        ensures
            r == (LaminarClient { laminar, account, chain_id, sequence_number }),
    {
        LaminarClient { laminar, account, chain_id, sequence_number }
    }

    /// A client from the texts of the two addresses. A text that is no
    /// address is a fault, that of the contract before that of the user.
    pub fn connect_with_strings(
        laminar_address: &str,
        account_address: &str,
        chain_id: u8,
        sequence_number: u64,
    ) -> (r: Result<LaminarClient, Error>)
        ensures
            r == match (address_of_text(laminar_address@), address_of_text(account_address@)) {
                (Some(laminar), Some(account)) => Ok::<LaminarClient, Error>(
                    LaminarClient { laminar, account, chain_id, sequence_number },
                ),
                _ => Err::<LaminarClient, Error>(Error::Decode(DecodeError::BadAddress)),
            },
    {
        match Address::from_text(laminar_address) {
            None => Err(Error::Decode(DecodeError::BadAddress)),
            Some(laminar) => match Address::from_text(account_address) {
                None => Err(Error::Decode(DecodeError::BadAddress)),
                Some(account) => Ok(
                    LaminarClient::connect(laminar, account, chain_id, sequence_number),
                ),
            },
        }
    }

    /// The account that holds the contract.
    pub fn laminar(&self) -> (r: &Address)
        ensures
            *r == self.laminar,
    {
        &self.laminar
    }

    /// The account of the user.
    pub fn account(&self) -> (r: &Address)
        ensures
            *r == self.account,
    {
        &self.account
    }

    /// Takes note of the chain that the node now serves.
    pub fn update_chain_id(&mut self, chain_id: u8)
        ensures
            *final(self) == (LaminarClient { chain_id, ..*old(self) }),
    {
        self.chain_id = chain_id;
    }

    /// The local sequence number.
    pub fn get_sequence_number(&self) -> (r: u64)
        ensures
            r == self.sequence_number,
    {
        self.sequence_number
    }

    /// A submission that starts from the local sequence number.
    pub fn submitter(&self) -> (r: Submitter)
        ensures
            r == Submitter::new_spec(self.sequence_number),
    {
        Submitter::new(self.sequence_number)
    }

    /// Takes over the sequence number that a submission has arrived at. The
    /// local number never falls.
    pub fn record(&mut self, submission: &Submitter)
        ensures
            *final(self) == (LaminarClient {
                sequence_number: if submission.sequence_number >= old(self).sequence_number {
                    submission.sequence_number
                } else {
                    old(self).sequence_number
                },
                ..*old(self)
            }),
    {
        if submission.sequence_number >= self.sequence_number {
            self.sequence_number = submission.sequence_number;
        }
    }

    /// The call that registers the user with the contract.
    pub fn register_user_payload(&self) -> (r: EntryFunction)
        ensures
            r@ == book_call(self.laminar, "register_user"@, Seq::empty(), Seq::empty()),
    {
        let type_args: Vec<String> = Vec::new();
        let args: Vec<Vec<u8>> = Vec::new();
        assert(type_args@.map_values(|t: String| t@) =~= Seq::<Seq<char>>::empty());
        assert(args@.map_values(|a: Vec<u8>| a@) =~= Seq::<Seq<u8>>::empty());
        make_book_call(self.laminar, "register_user", type_args, args)
    }

    /// The call that creates a book for the two coins.
    pub fn create_orderbook_payload(
        &self,
        base: &str,
        quote: &str,
        price_decimals: u8,
        size_decimals: u8,
        min_size_amount: u64,
    ) -> (r: Result<EntryFunction, Error>)
        ensures
            r is Ok,
            r->Ok_0@ == book_call(
                self.laminar,
                "create_orderbook"@,
                seq![base@, quote@],
                seq![seq![price_decimals], seq![size_decimals], le_bytes_u64(min_size_amount)],
            ),
    {
        let mut args: Vec<Vec<u8>> = Vec::new();
        args.push(bcs_u8(price_decimals).unwrap());
        args.push(bcs_u8(size_decimals).unwrap());
        args.push(bcs_u64(min_size_amount).unwrap());
        assert(args@.map_values(|a: Vec<u8>| a@) =~= seq![
            seq![price_decimals],
            seq![size_decimals],
            le_bytes_u64(min_size_amount),
        ]);
        Ok(make_book_call(self.laminar, "create_orderbook", coin_types(base, quote), args))
    }

    /// The call that places a limit order.
    pub fn place_limit_order_payload(
        &self,
        base: &str,
        quote: &str,
        book_owner: &Address,
        side: Side,
        price: u64,
        size: u64,
        time_in_force: TimeInForce,
        post_only: bool,
    ) -> (r: Result<EntryFunction, Error>)
        ensures
            r is Ok,
            r->Ok_0@ == book_call(
                self.laminar,
                "place_limit_order"@,
                seq![base@, quote@],
                seq![
                    address_bytes(*book_owner),
                    seq![side.code_of()],
                    le_bytes_u64(price),
                    le_bytes_u64(size),
                    seq![time_in_force.code_of()],
                    seq![if post_only { 1u8 } else { 0u8 }],
                ],
            ),
    {
        let mut args: Vec<Vec<u8>> = Vec::new();
        args.push(book_owner.to_bcs());
        args.push(bcs_u8(side.code()).unwrap());
        args.push(bcs_u64(price).unwrap());
        args.push(bcs_u64(size).unwrap());
        args.push(bcs_u8(time_in_force.code()).unwrap());
        args.push(bcs_bool(post_only).unwrap());
        assert(args@.map_values(|a: Vec<u8>| a@) =~= seq![
            address_bytes(*book_owner),
            seq![side.code_of()],
            le_bytes_u64(price),
            le_bytes_u64(size),
            seq![time_in_force.code_of()],
            seq![if post_only { 1u8 } else { 0u8 }],
        ]);
        Ok(make_book_call(self.laminar, "place_limit_order", coin_types(base, quote), args))
    }

    /// The call that places a market order.
    pub fn place_market_order_payload(
        &self,
        base: &str,
        quote: &str,
        book_owner: &Address,
        side: Side,
        size: u64,
    ) -> (r: Result<EntryFunction, Error>)
        ensures
            r is Ok,
            r->Ok_0@ == book_call(
                self.laminar,
                "place_market_order"@,
                seq![base@, quote@],
                seq![address_bytes(*book_owner), seq![side.code_of()], le_bytes_u64(size)],
            ),
    {
        let mut args: Vec<Vec<u8>> = Vec::new();
        args.push(book_owner.to_bcs());
        args.push(bcs_u8(side.code()).unwrap());
        args.push(bcs_u64(size).unwrap());
        assert(args@.map_values(|a: Vec<u8>| a@) =~= seq![
            address_bytes(*book_owner),
            seq![side.code_of()],
            le_bytes_u64(size),
        ]);
        Ok(make_book_call(self.laminar, "place_market_order", coin_types(base, quote), args))
    }

    /// The call that amends an order. The order goes by its number.
    pub fn amend_order_payload(
        &self,
        base: &str,
        quote: &str,
        book_owner: &Address,
        order_id: &Id,
        side: Side,
        price: u64,
        size: u64,
    ) -> (r: Result<EntryFunction, Error>)
        ensures
            r is Ok,
            r->Ok_0@ == book_call(
                self.laminar,
                "amend_order"@,
                seq![base@, quote@],
                seq![
                    address_bytes(*book_owner),
                    le_bytes_u64(order_id.creation_num),
                    seq![side.code_of()],
                    le_bytes_u64(price),
                    le_bytes_u64(size),
                ],
            ),
    {
        let mut args: Vec<Vec<u8>> = Vec::new();
        args.push(book_owner.to_bcs());
        args.push(bcs_u64(order_id.creation_num).unwrap());
        args.push(bcs_u8(side.code()).unwrap());
        args.push(bcs_u64(price).unwrap());
        args.push(bcs_u64(size).unwrap());
        assert(args@.map_values(|a: Vec<u8>| a@) =~= seq![
            address_bytes(*book_owner),
            le_bytes_u64(order_id.creation_num),
            seq![side.code_of()],
            le_bytes_u64(price),
            le_bytes_u64(size),
        ]);
        Ok(make_book_call(self.laminar, "amend_order", coin_types(base, quote), args))
    }

    /// The call that cancels an order. The order goes by its number.
    pub fn cancel_order_payload(
        &self,
        base: &str,
        quote: &str,
        book_owner: &Address,
        order_id: &Id,
        side: Side,
    ) -> (r: Result<EntryFunction, Error>)
        ensures
            r is Ok,
            r->Ok_0@ == book_call(
                self.laminar,
                "cancel_order"@,
                seq![base@, quote@],
                seq![
                    address_bytes(*book_owner),
                    le_bytes_u64(order_id.creation_num),
                    seq![side.code_of()],
                ],
            ),
    {
        let mut args: Vec<Vec<u8>> = Vec::new();
        args.push(book_owner.to_bcs());
        args.push(bcs_u64(order_id.creation_num).unwrap());
        args.push(bcs_u8(side.code()).unwrap());
        assert(args@.map_values(|a: Vec<u8>| a@) =~= seq![
            address_bytes(*book_owner),
            le_bytes_u64(order_id.creation_num),
            seq![side.code_of()],
        ]);
        Ok(make_book_call(self.laminar, "cancel_order", coin_types(base, quote), args))
    }

    /// The call that registers the user for a coin.
    pub fn register_for_coin(coin: &str) -> (r: Result<EntryFunction, Error>)
        ensures
            r is Ok,
            r->Ok_0@ == (EntryFunctionView {
                module_address: Address { hi: 0, lo: 1 },
                module_name: "managed_coin"@,
                function: "register"@,
                type_args: seq![coin@],
                args: Seq::empty(),
            }),
    {
        let mut type_args: Vec<String> = Vec::new();
        type_args.push(coin.to_owned());
        let args: Vec<Vec<u8>> = Vec::new();
        assert(type_args@.map_values(|t: String| t@) =~= seq![coin@]);
        assert(args@.map_values(|a: Vec<u8>| a@) =~= Seq::<Seq<u8>>::empty());
        Ok(
            EntryFunction {
                module_address: Address { hi: 0, lo: 1 },
                module_name: "managed_coin".to_owned(),
                function: "register".to_owned(),
                type_args,
                args,
            },
        )
    }

    /// Puts a book together from the snapshots of its two sides, as fetched
    /// under the names that `get_book_bids_type` and `get_book_asks_type`
    /// give; a side that the ledger does not hold is `None`. The book bears
    /// the two coin types, base before quote.
    pub fn fetch_orderbook(
        &self,
        base: &str,
        quote: &str,
        bids: Option<&Json>,
        asks: Option<&Json>,
    ) -> (r: Result<OrderBook, Error>)
        ensures
            match r {
                Ok(book) => assembled(deref_option(bids), deref_option(asks), seq![base@, quote@])
                    == Ok::<OrderBookView, Error>(book@),
                Err(e) => assembled(deref_option(bids), deref_option(asks), seq![base@, quote@])
                    == Err::<OrderBookView, Error>(e),
            },
    {
        assemble_book(bids, asks, coin_types(base, quote))
    }

    /// The name of the resource that holds the bids of a book.
    pub fn get_book_bids_type(&self, base: &str, quote: &str) -> (r: String)
        ensures
            r@ == short_text(self.laminar) + "::book::OrderBookBids<"@ + base@ + ", "@ + quote@
                + ">"@,
    {
        let mut out = self.laminar.to_hex_literal();
        out.append("::book::OrderBookBids<");
        out.append(base);
        out.append(", ");
        out.append(quote);
        out.append(">");
        out
    }

    /// The name of the resource that holds the asks of a book.
    pub fn get_book_asks_type(&self, base: &str, quote: &str) -> (r: String)
        ensures
            r@ == short_text(self.laminar) + "::book::OrderBookAsks<"@ + base@ + ", "@ + quote@
                + ">"@,
    {
        let mut out = self.laminar.to_hex_literal();
        out.append("::book::OrderBookAsks<");
        out.append(base);
        out.append(", ");
        out.append(quote);
        out.append(">");
        out
    }

    /// The name of the resource that holds the event logs of an account. An
    /// account that has it is registered with the contract.
    pub fn event_store_type(&self) -> (r: String)
        ensures
            r@ == short_text(self.laminar) + "::book::OrderBookStore"@,
    {
        let mut out = self.laminar.to_hex_literal();
        out.append("::book::OrderBookStore");
        out
    }

    /// The name of the resource that describes a coin. A coin that has it
    /// exists.
    pub fn coin_info_type(coin: &str) -> (r: String)
        ensures
            r@ == "0x1::coin::CoinInfo<"@ + coin@ + ">"@,
    {
        let mut out = "0x1::coin::CoinInfo<".to_owned();
        out.append(coin);
        out.append(">");
        out
    }

    /// The name of the resource that holds an account's balance of a coin.
    /// An account that has it is registered for the coin.
    pub fn coin_store_type(coin: &str) -> (r: String)
        ensures
            r@ == "0x1::coin::CoinStore<"@ + coin@ + ">"@,
    {
        let mut out = "0x1::coin::CoinStore<".to_owned();
        out.append(coin);
        out.append(">");
        out
    }

    /// The balance that a coin store holds: the integer in the entry `value`
    /// of its entry `coin`.
    pub open spec fn balance_of(j: Json) -> Result<u64, DecodeError> {
        match object_members(j) {
            Err(e) => Err(e),
            Ok(m) => match field(m, "coin"@) {
                Err(e) => Err(e),
                Ok(coin) => match object_members(coin) {
                    Err(e) => Err(e),
                    Ok(c) => match field(c, "value"@) {
                        Err(e) => Err(e),
                        Ok(v) => text_u64(v),
                    },
                },
            },
        }
    }

    /// Reads the balance from a coin store.
    pub fn get_coin_balance(store: &Json) -> (r: Result<u64, DecodeError>)
        ensures
            r == LaminarClient::balance_of(*store),
    {
        let m = read_object(store)?;
        let coin = read_object(get_field(m, "coin")?)?;
        deserialize_from_str(get_field(coin, "value")?)
    }
}

} // verus!
