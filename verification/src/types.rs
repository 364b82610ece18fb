//! Domain value types: identifiers, fixed-point quantity/price/money values
//! and the closed enums that order events carry.
//!
//! Identifiers are opaque values with structural equality and a canonical
//! text form; here the text is held as ASCII bytes so that contracts can
//! speak of it directly as a byte sequence.

use vstd::prelude::*;
use vstd::string::StrSliceExecFns;
use vstd::string::StringSliceAdditionalSpecFns;

verus! {

/// Text content that the wire formats accept verbatim: printable ASCII
/// without the quote and backslash characters, so no escaping is needed.
pub open spec fn wf_text(s: Seq<u8>) -> bool {
    forall|i: int|
        0 <= i < s.len() ==> 0x20 <= #[trigger] s[i] < 0x7f && s[i] != 0x22 && s[i] != 0x5c
}

/// Runtime check for [`wf_text`].
pub fn is_wf_text(v: &Vec<u8>) -> (r: bool)
    ensures
        r == wf_text(v@),
{
    let mut i: usize = 0;
    while i < v.len()
        invariant
            0 <= i <= v@.len(),
            forall|j: int|
                0 <= j < i ==> 0x20 <= #[trigger] v@[j] < 0x7f && v@[j] != 0x22 && v@[j] != 0x5c,
        decreases v@.len() - i,
    {
        let b = v[i];
        if !(0x20 <= b && b < 0x7f && b != 0x22 && b != 0x5c) {
            return false;
        }
        i += 1;
    }
    true
}

/// Byte-for-byte copy of a byte vector.
pub fn copy_bytes(v: &Vec<u8>) -> (r: Vec<u8>)
    ensures
        r@ == v@,
{
    let mut out: Vec<u8> = Vec::new();
    let mut i: usize = 0;
    while i < v.len()
        invariant
            0 <= i <= v@.len(),
            out@ == v@.subrange(0, i as int),
        decreases v@.len() - i,
    {
        out.push(v[i]);
        i += 1;
    }
    proof {
        assert(out@ =~= v@);
    }
    out
}

/// Structural equality of two byte vectors.
pub fn bytes_eq(a: &Vec<u8>, b: &Vec<u8>) -> (r: bool)
    ensures
        r == (a@ == b@),
{
    if a.len() != b.len() {
        return false;
    }
    let mut i: usize = 0;
    while i < a.len()
        invariant
            a@.len() == b@.len(),
            0 <= i <= a@.len(),
            forall|j: int| 0 <= j < i ==> a@[j] == b@[j],
        decreases a@.len() - i,
    {
        if a[i] != b[i] {
            return false;
        }
        i += 1;
    }
    proof {
        assert(a@ =~= b@);
    }
    true
}

pub struct TraderId {
    pub value: Vec<u8>,
}

impl View for TraderId {
    type V = Seq<u8>;

    open spec fn view(&self) -> Seq<u8> {
        self.value@
    }
}

impl TraderId {
    pub fn new(s: &str) -> (r: Self)
        ensures
            r@ == s.spec_bytes(),
    {
        TraderId { value: s.as_bytes_vec() }
    }

    pub open spec fn wf(&self) -> bool {
        wf_text(self.value@)
    }
}

impl Clone for TraderId {
    fn clone(&self) -> (r: Self)
        ensures
            r@ == self@,
    {
        TraderId { value: copy_bytes(&self.value) }
    }
}

pub struct StrategyId {
    pub value: Vec<u8>,
}

impl View for StrategyId {
    type V = Seq<u8>;

    open spec fn view(&self) -> Seq<u8> {
        self.value@
    }
}

impl StrategyId {
    pub fn new(s: &str) -> (r: Self)
        ensures
            r@ == s.spec_bytes(),
    {
        StrategyId { value: s.as_bytes_vec() }
    }

    pub open spec fn wf(&self) -> bool {
        wf_text(self.value@)
    }
}

impl Clone for StrategyId {
    fn clone(&self) -> (r: Self)
        ensures
            r@ == self@,
    {
        StrategyId { value: copy_bytes(&self.value) }
    }
}

pub struct InstrumentId {
    pub value: Vec<u8>,
}

impl View for InstrumentId {
    type V = Seq<u8>;

    open spec fn view(&self) -> Seq<u8> {
        self.value@
    }
}

impl InstrumentId {
    pub fn new(s: &str) -> (r: Self)
        ensures
            r@ == s.spec_bytes(),
    {
        InstrumentId { value: s.as_bytes_vec() }
    }

    pub open spec fn wf(&self) -> bool {
        wf_text(self.value@)
    }
}

impl Clone for InstrumentId {
    fn clone(&self) -> (r: Self)
        ensures
            r@ == self@,
    {
        InstrumentId { value: copy_bytes(&self.value) }
    }
}

pub struct ClientOrderId {
    pub value: Vec<u8>,
}

impl View for ClientOrderId {
    type V = Seq<u8>;

    open spec fn view(&self) -> Seq<u8> {
        self.value@
    }
}

impl ClientOrderId {
    pub fn new(s: &str) -> (r: Self)
        ensures
            r@ == s.spec_bytes(),
    {
        ClientOrderId { value: s.as_bytes_vec() }
    }

    pub open spec fn wf(&self) -> bool {
        wf_text(self.value@)
    }
}

impl Clone for ClientOrderId {
    fn clone(&self) -> (r: Self)
        ensures
            r@ == self@,
    {
        ClientOrderId { value: copy_bytes(&self.value) }
    }
}

pub struct VenueOrderId {
    pub value: Vec<u8>,
}

impl View for VenueOrderId {
    type V = Seq<u8>;

    open spec fn view(&self) -> Seq<u8> {
        self.value@
    }
}

impl VenueOrderId {
    pub fn new(s: &str) -> (r: Self)
        ensures
            r@ == s.spec_bytes(),
    {
        VenueOrderId { value: s.as_bytes_vec() }
    }

    pub open spec fn wf(&self) -> bool {
        wf_text(self.value@)
    }
}

impl Clone for VenueOrderId {
    fn clone(&self) -> (r: Self)
        ensures
            r@ == self@,
    {
        VenueOrderId { value: copy_bytes(&self.value) }
    }
}

pub struct AccountId {
    pub value: Vec<u8>,
}

impl View for AccountId {
    type V = Seq<u8>;

    open spec fn view(&self) -> Seq<u8> {
        self.value@
    }
}

impl AccountId {
    pub fn new(s: &str) -> (r: Self)
        ensures
            r@ == s.spec_bytes(),
    {
        AccountId { value: s.as_bytes_vec() }
    }

    pub open spec fn wf(&self) -> bool {
        wf_text(self.value@)
    }
}

impl Clone for AccountId {
    fn clone(&self) -> (r: Self)
        ensures
            r@ == self@,
    {
        AccountId { value: copy_bytes(&self.value) }
    }
}

pub struct TradeId {
    pub value: Vec<u8>,
}

impl View for TradeId {
    type V = Seq<u8>;

    open spec fn view(&self) -> Seq<u8> {
        self.value@
    }
}

impl TradeId {
    pub fn new(s: &str) -> (r: Self)
        ensures
            r@ == s.spec_bytes(),
    {
        TradeId { value: s.as_bytes_vec() }
    }

    pub open spec fn wf(&self) -> bool {
        wf_text(self.value@)
    }
}

impl Clone for TradeId {
    fn clone(&self) -> (r: Self)
        ensures
            r@ == self@,
    {
        TradeId { value: copy_bytes(&self.value) }
    }
}

pub struct PositionId {
    pub value: Vec<u8>,
}

impl View for PositionId {
    type V = Seq<u8>;

    open spec fn view(&self) -> Seq<u8> {
        self.value@
    }
}

impl PositionId {
    pub fn new(s: &str) -> (r: Self)
        ensures
            r@ == s.spec_bytes(),
    {
        PositionId { value: s.as_bytes_vec() }
    }

    pub open spec fn wf(&self) -> bool {
        wf_text(self.value@)
    }
}

impl Clone for PositionId {
    fn clone(&self) -> (r: Self)
        ensures
            r@ == self@,
    {
        PositionId { value: copy_bytes(&self.value) }
    }
}

pub struct OrderListId {
    pub value: Vec<u8>,
}

impl View for OrderListId {
    type V = Seq<u8>;

    open spec fn view(&self) -> Seq<u8> {
        self.value@
    }
}

impl OrderListId {
    pub fn new(s: &str) -> (r: Self)
        ensures
            r@ == s.spec_bytes(),
    {
        OrderListId { value: s.as_bytes_vec() }
    }

    pub open spec fn wf(&self) -> bool {
        wf_text(self.value@)
    }
}

impl Clone for OrderListId {
    fn clone(&self) -> (r: Self)
        ensures
            r@ == self@,
    {
        OrderListId { value: copy_bytes(&self.value) }
    }
}

/// Process-unique event identifier, held in its canonical text form.
pub struct UUID4 {
    pub value: Vec<u8>,
}

impl View for UUID4 {
    type V = Seq<u8>;

    open spec fn view(&self) -> Seq<u8> {
        self.value@
    }
}

impl UUID4 {
    pub fn new(s: &str) -> (r: Self)
        ensures
            r@ == s.spec_bytes(),
    {
        UUID4 { value: s.as_bytes_vec() }
    }

    pub open spec fn wf(&self) -> bool {
        wf_text(self.value@)
    }
}

impl Clone for UUID4 {
    fn clone(&self) -> (r: Self)
        ensures
            r@ == self@,
    {
        UUID4 { value: copy_bytes(&self.value) }
    }
}

/// Fixed-point quantity: `raw` scaled by `10^precision` decimal places.
#[derive(Clone, Copy, PartialEq, Eq, Structural, Debug)]
pub struct Quantity {
    pub raw: u64,
    pub precision: u8,
}

impl Quantity {
    pub fn new(raw: u64, precision: u8) -> (r: Self)
        ensures
            r.raw == raw,
            r.precision == precision,
    {
        Quantity { raw, precision }
    }
}

/// Fixed-point price: `raw` scaled by `10^precision` decimal places.
#[derive(Clone, Copy, PartialEq, Eq, Structural, Debug)]
pub struct Price {
    pub raw: u64,
    pub precision: u8,
}

impl Price {
    pub fn new(raw: u64, precision: u8) -> (r: Self)
        ensures
            r.raw == raw,
            r.precision == precision,
    {
        Price { raw, precision }
    }
}

/// Currency, identified by its canonical code.
pub struct Currency {
    pub code: Vec<u8>,
}

impl View for Currency {
    type V = Seq<u8>;

    open spec fn view(&self) -> Seq<u8> {
        self.code@
    }
}

impl Currency {
    pub fn new(s: &str) -> (r: Self)
        ensures
            r@ == s.spec_bytes(),
    {
        Currency { code: s.as_bytes_vec() }
    }

    pub open spec fn wf(&self) -> bool {
        wf_text(self.code@)
    }
}

impl Clone for Currency {
    fn clone(&self) -> (r: Self)
        ensures
            r@ == self@,
    {
        Currency { code: copy_bytes(&self.code) }
    }
}

/// Monetary amount: a fixed-point raw value in a currency.
pub struct Money {
    pub raw: u64,
    pub currency: Currency,
}

impl Money {
    pub fn new(raw: u64, currency: Currency) -> (r: Self)
        ensures
            r.raw == raw,
            r.currency@ == currency@,
    {
        Money { raw, currency }
    }

    pub open spec fn wf(&self) -> bool {
        self.currency.wf()
    }
}

impl Clone for Money {
    fn clone(&self) -> (r: Self)
        ensures
            r.raw == self.raw,
            r.currency@ == self.currency@,
    {
        Money { raw: self.raw, currency: self.currency.clone() }
    }
}

#[derive(Clone, Copy, PartialEq, Eq, Structural, Debug)]
pub enum OrderSide {
    Buy,
    Sell,
}

#[derive(Clone, Copy, PartialEq, Eq, Structural, Debug)]
pub enum OrderType {
    Market,
    Limit,
    StopMarket,
    StopLimit,
}

#[derive(Clone, Copy, PartialEq, Eq, Structural, Debug)]
pub enum TimeInForce {
    Gtc,
    Gtd,
    Day,
    Ioc,
    Fok,
}

#[derive(Clone, Copy, PartialEq, Eq, Structural, Debug)]
pub enum TriggerType {
    Default,
    BidAsk,
    LastPrice,
}

#[derive(Clone, Copy, PartialEq, Eq, Structural, Debug)]
pub enum ContingencyType {
    Oco,
    Oto,
    Ouo,
}

#[derive(Clone, Copy, PartialEq, Eq, Structural, Debug)]
pub enum LiquiditySide {
    Maker,
    Taker,
}

/// Numeric wire code of an [`OrderSide`].
pub open spec fn side_code(v: OrderSide) -> u64 {
    match v {
        OrderSide::Buy => 1,
        OrderSide::Sell => 2,
    }
}

pub open spec fn side_from_code(c: u64) -> Option<OrderSide> {
    if c == 1 {
        Some(OrderSide::Buy)
    } else if c == 2 {
        Some(OrderSide::Sell)
    } else {
        None
    }
}

pub fn side_to_u64(v: OrderSide) -> (r: u64)
    ensures
        r == side_code(v),
{
    match v {
        OrderSide::Buy => 1,
        OrderSide::Sell => 2,
    }
}

pub fn side_of_u64(c: u64) -> (r: Option<OrderSide>)
    ensures
        r == side_from_code(c),
{
    if c == 1 {
        Some(OrderSide::Buy)
    } else if c == 2 {
        Some(OrderSide::Sell)
    } else {
        None
    }
}

/// Numeric wire code of an [`OrderType`].
pub open spec fn order_type_code(v: OrderType) -> u64 {
    match v {
        OrderType::Market => 1,
        OrderType::Limit => 2,
        OrderType::StopMarket => 3,
        OrderType::StopLimit => 4,
    }
}

pub open spec fn order_type_from_code(c: u64) -> Option<OrderType> {
    if c == 1 {
        Some(OrderType::Market)
    } else if c == 2 {
        Some(OrderType::Limit)
    } else if c == 3 {
        Some(OrderType::StopMarket)
    } else if c == 4 {
        Some(OrderType::StopLimit)
    } else {
        None
    }
}

pub fn order_type_to_u64(v: OrderType) -> (r: u64)
    ensures
        r == order_type_code(v),
{
    match v {
        OrderType::Market => 1,
        OrderType::Limit => 2,
        OrderType::StopMarket => 3,
        OrderType::StopLimit => 4,
    }
}

pub fn order_type_of_u64(c: u64) -> (r: Option<OrderType>)
    ensures
        r == order_type_from_code(c),
{
    if c == 1 {
        Some(OrderType::Market)
    } else if c == 2 {
        Some(OrderType::Limit)
    } else if c == 3 {
        Some(OrderType::StopMarket)
    } else if c == 4 {
        Some(OrderType::StopLimit)
    } else {
        None
    }
}

/// Numeric wire code of a [`TimeInForce`].
pub open spec fn tif_code(v: TimeInForce) -> u64 {
    match v {
        TimeInForce::Gtc => 1,
        TimeInForce::Gtd => 2,
        TimeInForce::Day => 3,
        TimeInForce::Ioc => 4,
        TimeInForce::Fok => 5,
    }
}

pub open spec fn tif_from_code(c: u64) -> Option<TimeInForce> {
    if c == 1 {
        Some(TimeInForce::Gtc)
    } else if c == 2 {
        Some(TimeInForce::Gtd)
    } else if c == 3 {
        Some(TimeInForce::Day)
    } else if c == 4 {
        Some(TimeInForce::Ioc)
    } else if c == 5 {
        Some(TimeInForce::Fok)
    } else {
        None
    }
}

pub fn tif_to_u64(v: TimeInForce) -> (r: u64)
    ensures
        r == tif_code(v),
{
    match v {
        TimeInForce::Gtc => 1,
        TimeInForce::Gtd => 2,
        TimeInForce::Day => 3,
        TimeInForce::Ioc => 4,
        TimeInForce::Fok => 5,
    }
}

pub fn tif_of_u64(c: u64) -> (r: Option<TimeInForce>)
    ensures
        r == tif_from_code(c),
{
    if c == 1 {
        Some(TimeInForce::Gtc)
    } else if c == 2 {
        Some(TimeInForce::Gtd)
    } else if c == 3 {
        Some(TimeInForce::Day)
    } else if c == 4 {
        Some(TimeInForce::Ioc)
    } else if c == 5 {
        Some(TimeInForce::Fok)
    } else {
        None
    }
}

/// Numeric wire code of a [`TriggerType`].
pub open spec fn trigger_code(v: TriggerType) -> u64 {
    match v {
        TriggerType::Default => 1,
        TriggerType::BidAsk => 2,
        TriggerType::LastPrice => 3,
    }
}

pub open spec fn trigger_from_code(c: u64) -> Option<TriggerType> {
    if c == 1 {
        Some(TriggerType::Default)
    } else if c == 2 {
        Some(TriggerType::BidAsk)
    } else if c == 3 {
        Some(TriggerType::LastPrice)
    } else {
        None
    }
}

pub fn trigger_to_u64(v: TriggerType) -> (r: u64)
    ensures
        r == trigger_code(v),
{
    match v {
        TriggerType::Default => 1,
        TriggerType::BidAsk => 2,
        TriggerType::LastPrice => 3,
    }
}

pub fn trigger_of_u64(c: u64) -> (r: Option<TriggerType>)
    ensures
        r == trigger_from_code(c),
{
    if c == 1 {
        Some(TriggerType::Default)
    } else if c == 2 {
        Some(TriggerType::BidAsk)
    } else if c == 3 {
        Some(TriggerType::LastPrice)
    } else {
        None
    }
}

/// Numeric wire code of a [`ContingencyType`].
pub open spec fn contingency_code(v: ContingencyType) -> u64 {
    match v {
        ContingencyType::Oco => 1,
        ContingencyType::Oto => 2,
        ContingencyType::Ouo => 3,
    }
}

pub open spec fn contingency_from_code(c: u64) -> Option<ContingencyType> {
    if c == 1 {
        Some(ContingencyType::Oco)
    } else if c == 2 {
        Some(ContingencyType::Oto)
    } else if c == 3 {
        Some(ContingencyType::Ouo)
    } else {
        None
    }
}

pub fn contingency_to_u64(v: ContingencyType) -> (r: u64)
    ensures
        r == contingency_code(v),
{
    match v {
        ContingencyType::Oco => 1,
        ContingencyType::Oto => 2,
        ContingencyType::Ouo => 3,
    }
}

pub fn contingency_of_u64(c: u64) -> (r: Option<ContingencyType>)
    ensures
        r == contingency_from_code(c),
{
    if c == 1 {
        Some(ContingencyType::Oco)
    } else if c == 2 {
        Some(ContingencyType::Oto)
    } else if c == 3 {
        Some(ContingencyType::Ouo)
    } else {
        None
    }
}

/// Numeric wire code of a [`LiquiditySide`].
pub open spec fn liquidity_code(v: LiquiditySide) -> u64 {
    match v {
        LiquiditySide::Maker => 1,
        LiquiditySide::Taker => 2,
    }
}

pub open spec fn liquidity_from_code(c: u64) -> Option<LiquiditySide> {
    if c == 1 {
        Some(LiquiditySide::Maker)
    } else if c == 2 {
        Some(LiquiditySide::Taker)
    } else {
        None
    }
}

pub fn liquidity_to_u64(v: LiquiditySide) -> (r: u64)
    ensures
        r == liquidity_code(v),
{
    match v {
        LiquiditySide::Maker => 1,
        LiquiditySide::Taker => 2,
    }
}

pub fn liquidity_of_u64(c: u64) -> (r: Option<LiquiditySide>)
    ensures
        r == liquidity_from_code(c),
{
    if c == 1 {
        Some(LiquiditySide::Maker)
    } else if c == 2 {
        Some(LiquiditySide::Taker)
    } else {
        None
    }
}

} // verus!
