//! Quotes: a price of a symbol on a market at a point in time, and how a quote
//! is written to the bus and read back.

use crate::bus::{BusMessage, DecodeError, ToBusKey, ToBusVal, ToFromBusMessage};
use crate::bus::redis::stream::StreamMsg;
use crate::rustlers::ticker::Ticker;
use crate::text::{
    chars_of, decimal_text, integer_text, is_digit, is_float_literal, is_float_text,
    join, lemma_decimal_text, lemma_float_literal_is_ascii, lemma_parse_integer_text,
    lemma_split_join, parse_signed, parse_unsigned, push_chars, read_i64, read_unsigned, split,
    split_on, string_of, write_i64, write_u64,
};
use vstd::prelude::*;
use vstd::std_specs::cmp::PartialEqSpecImpl;
use vstd::std_specs::convert::FromSpecImpl;
use vstd::string::StringExecFns;

verus! {

/// What stands between the fields of a quote's message: the broken bar.
pub const DELIMITER: char = '\u{a6}';

/// The phase of the trading day in which a quote was taken.
#[derive(Debug, Clone, Copy, PartialEq, Eq, Structural)]
pub enum MarketHourType {
    Pre,
    Regular,
    Post,
    Extended,
}

impl MarketHourType {
    /// The number that stands for the phase on the bus.
    pub open spec fn code(self) -> u8 {
        match self {
            MarketHourType::Pre => 0,
            MarketHourType::Regular => 1,
            MarketHourType::Post => 2,
            MarketHourType::Extended => 3,
        }
    }

    /// The phase that a number stands for; a number that stands for none is
    /// read as the regular session.
    pub open spec fn of_code(code: u8) -> Self {
        if code == 0 {
            MarketHourType::Pre
        } else if code == 2 {
            MarketHourType::Post
        } else if code == 3 {
            MarketHourType::Extended
        } else {
            MarketHourType::Regular
        }
    }
}

impl From<MarketHourType> for u8 {
    fn from(market_hour_type: MarketHourType) -> (code: u8) {
        match market_hour_type {
            MarketHourType::Pre => 0,
            MarketHourType::Regular => 1,
            MarketHourType::Post => 2,
            MarketHourType::Extended => 3,
        }
    }
}

impl FromSpecImpl<MarketHourType> for u8 {
    open spec fn obeys_from_spec() -> bool {
        true
    }

    open spec fn from_spec(market_hour_type: MarketHourType) -> u8 {
        market_hour_type.code()
    }
}

impl From<u8> for MarketHourType {
    fn from(market_hour_type: u8) -> (phase: MarketHourType) {
        match market_hour_type {
            0 => MarketHourType::Pre,
            1 => MarketHourType::Regular,
            2 => MarketHourType::Post,
            3 => MarketHourType::Extended,
            _ => MarketHourType::Regular,
        }
    }
}

impl FromSpecImpl<u8> for MarketHourType {
    open spec fn obeys_from_spec() -> bool {
        true
    }

    open spec fn from_spec(market_hour_type: u8) -> MarketHourType {
        MarketHourType::of_code(market_hour_type)
    }
}

/// The decimal text of a 64-bit float, as prices and changes travel through
/// the core. Arithmetic on them belongs to the producers and consumers.
#[derive(Debug)]
pub struct FloatText {
    text: String,
}

impl View for FloatText {
    type V = Seq<char>;

    closed spec fn view(&self) -> Seq<char> {
        self.text@
    }
}

impl Clone for FloatText {
    fn clone(&self) -> (copy: Self)
        ensures
            copy@ == self@,
    {
        proof {
            use_type_invariant(self);
        }
        FloatText { text: self.text.clone() }
    }
}

impl FloatText {
    #[verifier::type_invariant]
    spec fn well_formed(self) -> bool {
        is_float_literal(self.text@)
    }

    /// Takes `text` as a float where it is the text of one.
    pub fn parse(text: &str) -> (float: Option<Self>)
        ensures
            float is Some <==> is_float_literal(text@),
            float is Some ==> float->0@ == text@,
    {
        let chars = chars_of(text);
        if is_float_text(&chars) {
            Some(FloatText { text: text.to_owned() })
        } else {
            None
        }
    }

    /// Takes the characters `chars` as a float where they are the text of one.
    pub fn from_chars(chars: &Vec<char>) -> (float: Option<Self>)
        ensures
            float is Some <==> is_float_literal(chars@),
            float is Some ==> float->0@ == chars@,
    {
        if is_float_text(chars) {
            let text = string_of(chars, 0, chars.len());
            proof {
                assert(chars@.subrange(0, chars.len() as int) == chars@);
            }
            Some(FloatText { text })
        } else {
            None
        }
    }

    /// The text of the float, which is always that of one.
    pub fn as_str(&self) -> (text: &str)
        ensures
            text@ == self@,
            is_float_literal(self@),
    {
        proof {
            use_type_invariant(self);
        }
        self.text.as_str()
    }
}

/// A point-in-time observation of a symbol's price.
#[derive(Debug)]
pub struct Quote {
    /// The instrument, as its market names it.
    pub symbol: String,
    /// The public name of the market.
    pub market: String,
    pub price: FloatText,
    pub change_percent: FloatText,
    /// Milliseconds since the epoch.
    pub time: i64,
    pub market_hours: MarketHourType,
}

/// What a quote holds, as plain values.
pub struct QuoteView {
    pub symbol: Seq<char>,
    pub market: Seq<char>,
    pub price: Seq<char>,
    pub change_percent: Seq<char>,
    pub time: i64,
    pub market_hours: MarketHourType,
}

impl QuoteView {
    /// The six fields of the quote's message, in their order.
    pub open spec fn fields(self) -> Seq<Seq<char>> {
        seq![
            self.symbol,
            self.market,
            self.price,
            self.change_percent,
            integer_text(self.time as int),
            integer_text(self.market_hours.code() as int),
        ]
    }

    /// The message of the quote: its six fields with the delimiter between
    /// them.
    pub open spec fn message(self) -> Seq<char> {
        join(self.fields(), DELIMITER)
    }

    /// The key of the quote on the bus.
    pub open spec fn key(self) -> Seq<char> {
        "quote:"@ + self.market + seq![':'] + self.symbol
    }

    /// The named fields of the quote's snapshot, in their order.
    pub open spec fn snapshot(self) -> Seq<(Seq<char>, Seq<char>)> {
        seq![
            ("symbol"@, self.symbol),
            ("market"@, self.market),
            ("price"@, self.price),
            ("market_hours"@, integer_text(self.market_hours.code() as int)),
            ("time"@, integer_text(self.time as int)),
            ("change_percent"@, self.change_percent),
        ]
    }

    /// Whether the quote is one of the ticker: symbol and market agree.
    pub open spec fn belongs_to(self, symbol: Seq<char>, market: Seq<char>) -> bool {
        self.symbol == symbol && self.market == market
    }

    /// What a message reads back as. It must split into exactly six fields;
    /// the third and fourth must be texts of floats, the fifth the text of a
    /// signed 64-bit integer, the sixth that of an integer from 0 to 255.
    pub open spec fn parse(msg: Seq<char>) -> Result<QuoteView, DecodeError> {
        let parts = split(msg, DELIMITER);
        if parts.len() != 6 {
            Err(DecodeError::FieldCount { found: parts.len() as usize })
        } else if !is_float_literal(parts[2]) {
            Err(DecodeError::InvalidField { index: 2 })
        } else if !is_float_literal(parts[3]) {
            Err(DecodeError::InvalidField { index: 3 })
        } else if parse_signed(parts[4], i64::MIN as int, i64::MAX as int) is None {
            Err(DecodeError::InvalidField { index: 4 })
        } else if parse_unsigned(parts[5], 255) is None {
            Err(DecodeError::InvalidField { index: 5 })
        } else {
            Ok(
                QuoteView {
                    symbol: parts[0],
                    market: parts[1],
                    price: parts[2],
                    change_percent: parts[3],
                    time: parse_signed(parts[4], i64::MIN as int, i64::MAX as int)->0 as i64,
                    market_hours: MarketHourType::of_code(parse_unsigned(parts[5], 255)->0 as u8),
                },
            )
        }
    }

    /// Whether the quote can be told apart again from its message: neither
    /// name holds the delimiter, and both numbers are texts of floats.
    pub open spec fn readable(self) -> bool {
        &&& !self.symbol.contains(DELIMITER)
        &&& !self.market.contains(DELIMITER)
        &&& is_float_literal(self.price)
        &&& is_float_literal(self.change_percent)
    }
}

impl View for Quote {
    type V = QuoteView;

    open spec fn view(&self) -> QuoteView {
        QuoteView {
            symbol: self.symbol@,
            market: self.market@,
            price: self.price@,
            change_percent: self.change_percent@,
            time: self.time,
            market_hours: self.market_hours,
        }
    }
}

impl Clone for Quote {
    fn clone(&self) -> (copy: Self)
        ensures
            copy@ == self@,
    {
        Quote {
            symbol: self.symbol.clone(),
            market: self.market.clone(),
            price: self.price.clone(),
            change_percent: self.change_percent.clone(),
            time: self.time,
            market_hours: self.market_hours,
        }
    }
}

impl PartialEq for Quote {
    /// Two quotes are of the same instrument where symbol and market agree.
    fn eq(&self, other: &Self) -> (same: bool) {
        self.symbol == other.symbol && self.market == other.market
    }
}

impl PartialEqSpecImpl for Quote {
    open spec fn obeys_eq_spec() -> bool {
        true
    }

    open spec fn eq_spec(&self, other: &Self) -> bool {
        self.symbol@ == other.symbol@ && self.market@ == other.market@
    }
}

impl Quote {
    /// Whether the quote is one of `ticker`: symbol and market agree.
    pub fn belongs_to(&self, ticker: &Ticker) -> (belongs: bool)
        ensures
            belongs == self@.belongs_to(ticker@.symbol, ticker@.market),
    {
        self.symbol == ticker.symbol && self.market == ticker.market
    }
}

/// A text of a decimal number holds no delimiter.
proof fn lemma_integer_text_has_no_delimiter(n: int)
    ensures
        !integer_text(n).contains(DELIMITER),
{
    let s = integer_text(n);
    let magnitude = if n < 0 {
        (-n) as nat
    } else {
        n as nat
    };
    lemma_decimal_text(magnitude);
    assert forall|i: int| 0 <= i < s.len() implies s[i] != DELIMITER by {
        if n < 0 {
            if i > 0 {
                assert(s[i] == decimal_text(magnitude)[i - 1]);
                assert(is_digit(decimal_text(magnitude)[i - 1]));
            }
        } else {
            assert(is_digit(s[i]));
        }
    }
}

/// The message of a quote, written out.
proof fn lemma_message(q: QuoteView)
    ensures
        q.message() == q.symbol + seq![DELIMITER] + q.market + seq![DELIMITER] + q.price + seq![
            DELIMITER,
        ] + q.change_percent + seq![DELIMITER] + integer_text(q.time as int) + seq![DELIMITER]
            + integer_text(q.market_hours.code() as int),
{
    let f = q.fields();
    let d = DELIMITER;
    let f1 = f.drop_first();
    let f2 = f1.drop_first();
    let f3 = f2.drop_first();
    let f4 = f3.drop_first();
    let f5 = f4.drop_first();
    assert(join(f5, d) == f[5]);
    assert(join(f4, d) == f[4] + seq![d] + join(f5, d));
    assert(join(f3, d) == f[3] + seq![d] + join(f4, d));
    assert(join(f2, d) == f[2] + seq![d] + join(f3, d));
    assert(join(f1, d) == f[1] + seq![d] + join(f2, d));
    assert(join(f, d) == f[0] + seq![d] + join(f1, d));
    assert(q.message() =~= q.symbol + seq![d] + q.market + seq![d] + q.price + seq![d]
        + q.change_percent + seq![d] + integer_text(q.time as int) + seq![d] + integer_text(
        q.market_hours.code() as int,
    ));
}

/// A quote comes back from its own message as it was, where neither of its
/// names holds the delimiter and both of its numbers are texts of floats.
pub proof fn lemma_quote_round_trip(q: QuoteView)
    requires
        q.readable(),
    ensures
        QuoteView::parse(q.message()) == Ok::<QuoteView, DecodeError>(q),
{
    let fields = q.fields();
    lemma_float_literal_is_ascii(q.price);
    lemma_float_literal_is_ascii(q.change_percent);
    lemma_integer_text_has_no_delimiter(q.time as int);
    lemma_integer_text_has_no_delimiter(q.market_hours.code() as int);
    assert forall|i: int| 0 <= i < fields.len() implies !(#[trigger] fields[i]).contains(
        DELIMITER,
    ) by {
        if i == 2 || i == 3 {
            let f = fields[i];
            assert forall|k: int| 0 <= k < f.len() implies f[k] != DELIMITER by {
                assert(f[k] as u32 <= 127);
            }
        }
    }
    lemma_split_join(fields, DELIMITER);
    lemma_parse_integer_text(q.time as int, i64::MIN as int, i64::MAX as int);
    lemma_parse_integer_text(q.market_hours.code() as int, 0, 255);
    let parsed = QuoteView::parse(q.message());
    assert(split(q.message(), DELIMITER) == fields);
    assert(parsed is Ok);
    assert(parsed->Ok_0.time == q.time);
    assert(parsed->Ok_0.market_hours == q.market_hours);
}

impl ToBusKey for Quote {
    open spec fn bus_key(value: QuoteView) -> Seq<char> {
        value.key()
    }

    /// The key of the quote on the bus: `quote:`, the market, a colon and the
    /// symbol.
    fn to_bus_key(&self) -> (key: String) {
        let mut key = String::from_str("quote:");
        key.append(self.market.as_str());
        key.push(':');
        key.append(self.symbol.as_str());
        key
    }
}

impl ToBusVal for Quote {
    open spec fn bus_val(value: QuoteView) -> Seq<(Seq<char>, Seq<char>)> {
        value.snapshot()
    }

    /// The six named fields of the quote.
    fn to_bus_val(&self) -> (fields: Vec<(String, String)>) {
        let hours: u8 = self.market_hours.into();
        let hours_chars = write_u64(hours as u64);
        let time_chars = write_i64(self.time);
        let hours_text = string_of(&hours_chars, 0, hours_chars.len());
        let time_text = string_of(&time_chars, 0, time_chars.len());
        proof {
            assert(hours_chars@.subrange(0, hours_chars.len() as int) == hours_chars@);
            assert(time_chars@.subrange(0, time_chars.len() as int) == time_chars@);
        }
        let mut fields: Vec<(String, String)> = Vec::new();
        fields.push((String::from_str("symbol"), self.symbol.clone()));
        fields.push((String::from_str("market"), self.market.clone()));
        fields.push((String::from_str("price"), self.price.as_str().to_owned()));
        fields.push((String::from_str("market_hours"), hours_text));
        fields.push((String::from_str("time"), time_text));
        fields.push((String::from_str("change_percent"), self.change_percent.as_str().to_owned()));
        fields
    }
}

impl ToFromBusMessage for Quote {
    open spec fn message(value: QuoteView) -> Seq<char> {
        value.message()
    }

    open spec fn parse(msg: Seq<char>) -> Result<QuoteView, DecodeError> {
        QuoteView::parse(msg)
    }

    open spec fn readable(value: QuoteView) -> bool {
        value.readable()
    }

    proof fn round_trip(value: QuoteView) {
        lemma_quote_round_trip(value);
    }

    /// The message of the quote: symbol, market, price, change, time and
    /// phase, with the delimiter between them.
    fn as_message(&self) -> (msg: String) {
        let hours: u8 = self.market_hours.into();
        let hours_chars = write_u64(hours as u64);
        let time_chars = write_i64(self.time);
        let mut msg = self.symbol.clone();
        msg.push(DELIMITER);
        msg.append(self.market.as_str());
        msg.push(DELIMITER);
        msg.append(self.price.as_str());
        msg.push(DELIMITER);
        msg.append(self.change_percent.as_str());
        msg.push(DELIMITER);
        push_chars(&mut msg, &time_chars);
        msg.push(DELIMITER);
        push_chars(&mut msg, &hours_chars);
        proof {
            lemma_message(self@);
            assert(msg@ =~= self@.message());
        }
        msg
    }

    /// Reads a quote back from a message.
    fn from_message(msg: &str) -> (value: Result<Self, DecodeError>) {
        let chars = chars_of(msg);
        let parts = split_on(&chars, DELIMITER);
        if parts.len() != 6 {
            return Err(DecodeError::FieldCount { found: parts.len() });
        }
        let price = match FloatText::from_chars(&parts[2]) {
            Some(price) => price,
            None => {
                return Err(DecodeError::InvalidField { index: 2 });
            },
        };
        let change_percent = match FloatText::from_chars(&parts[3]) {
            Some(change) => change,
            None => {
                return Err(DecodeError::InvalidField { index: 3 });
            },
        };
        let time = match read_i64(&parts[4]) {
            Some(time) => time,
            None => {
                return Err(DecodeError::InvalidField { index: 4 });
            },
        };
        let hours = match read_unsigned(&parts[5], 255) {
            Some(hours) => hours as u8,
            None => {
                return Err(DecodeError::InvalidField { index: 5 });
            },
        };
        let symbol = string_of(&parts[0], 0, parts[0].len());
        let market = string_of(&parts[1], 0, parts[1].len());
        proof {
            assert(parts[0]@.subrange(0, parts[0].len() as int) == parts[0]@);
            assert(parts[1]@.subrange(0, parts[1].len() as int) == parts[1]@);
        }
        Ok(Quote { symbol, market, price, change_percent, time, market_hours: MarketHourType::from(hours) })
    }
}

impl StreamMsg for Quote {

}

impl BusMessage for Quote {

}

} // verus!
