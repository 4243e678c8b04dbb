//! Cash flows of a broker account: every movement of money that a broker
//! statement records, in date order.
use vstd::prelude::*;
use vstd::multiset::Multiset;
use crate::cash::{Cash, CashView, cash_text, negated};
use crate::date::{Date, DateView, lemma_date_is_valid, lemma_ordinal_is_lexicographic};
use crate::decimal::{Decimal, DecimalView, decimal_text, valid_decimal};
use crate::statement::{
    BrokerStatement,
    CashAssets,
    Dividend,
    Fee,
    ForexTrade,
    IdleCashInterest,
    StockBuy,
    StockSell,
};

verus! {

// ---------------------------------------------------------------------------
// Cash flows and their views.
// ---------------------------------------------------------------------------

/// The mathematical content of a cash flow.
pub struct CashFlowView {
    pub date: DateView,
    pub amount: CashView,
    pub sibling_amount: Option<CashView>,
    pub description: Seq<char>,
}

/// A movement of money on the account.
#[derive(Debug)]
pub struct CashFlow {
    pub date: Date,
    pub amount: Cash,
    /// The amount received in exchange, for a currency conversion.
    pub sibling_amount: Option<Cash>,
    pub description: String,
}

pub open spec fn cash_view_opt(c: Option<Cash>) -> Option<CashView> {
    match c {
        Some(c) => Some(c@),
        None => None,
    }
}

impl View for CashFlow {
    type V = CashFlowView;

    open spec fn view(&self) -> CashFlowView {
        CashFlowView {
            date: self.date@,
            amount: self.amount@,
            sibling_amount: cash_view_opt(self.sibling_amount),
            description: self.description@,
        }
    }
}

pub open spec fn flows_view(v: Seq<CashFlow>) -> Seq<CashFlowView> {
    v.map_values(|c: CashFlow| c@)
}

impl CashFlow {
    pub fn new(date: Date, amount: Cash, description: String) -> (r: CashFlow)
        ensures
            r@ == (CashFlowView {
                date: date@,
                amount: amount@,
                sibling_amount: None,
                description: description@,
            }),
    {
        CashFlow { date, amount, sibling_amount: None, description }
    }
}

// ---------------------------------------------------------------------------
// Ordering by date, keeping the order of flows of the same date.
// ---------------------------------------------------------------------------

pub open spec fn flow_key(f: CashFlowView) -> int {
    f.date.ordinal()
}

/// `s` with `x` put after every flow of `s` that is not later than `x`, and
/// before the later flows at the end of `s`.
pub open spec fn insert_by_date(s: Seq<CashFlowView>, x: CashFlowView) -> Seq<CashFlowView>
    decreases s.len(),
{
    if s.len() == 0 {
        seq![x]
    } else if flow_key(s.last()) <= flow_key(x) {
        s.push(x)
    } else {
        insert_by_date(s.drop_last(), x).push(s.last())
    }
}

/// The flows `xs` put into `s` one after the other.
pub open spec fn insert_all(s: Seq<CashFlowView>, xs: Seq<CashFlowView>) -> Seq<CashFlowView>
    decreases xs.len(),
{
    if xs.len() == 0 {
        s
    } else {
        insert_by_date(insert_all(s, xs.drop_last()), xs.last())
    }
}

/// The flows ordered by date; flows of the same date keep their order.
pub open spec fn sort_by_date(s: Seq<CashFlowView>) -> Seq<CashFlowView> {
    insert_all(Seq::empty(), s)
}

pub open spec fn is_sorted_by_date(s: Seq<CashFlowView>) -> bool {
    forall|i: int, j: int| 0 <= i < j < s.len() ==> flow_key(s[i]) <= flow_key(s[j])
}

/// Where the scan from the end stops, `insert_by_date` puts the new flow.
proof fn lemma_insert_at(s: Seq<CashFlowView>, x: CashFlowView, i: int)
    requires
        0 <= i <= s.len(),
        forall|j: int| i <= j < s.len() ==> flow_key(#[trigger] s[j]) > flow_key(x),
        i == 0 || flow_key(s[i - 1]) <= flow_key(x),
    ensures
        insert_by_date(s, x) == s.take(i).push(x) + s.skip(i),
    decreases s.len(),
{
    if i == s.len() {
        assert(s.take(i) == s);
        assert(s.skip(i) =~= Seq::<CashFlowView>::empty());
        assert(s.take(i).push(x) + s.skip(i) =~= s.push(x));
    } else {
        let p = s.drop_last();
        assert(flow_key(s[s.len() - 1]) > flow_key(x));
        assert forall|j: int| i <= j < p.len() implies flow_key(#[trigger] p[j]) > flow_key(x) by {
            assert(p[j] == s[j]);
        }
        if i > 0 {
            assert(p[i - 1] == s[i - 1]);
        }
        lemma_insert_at(p, x, i);
        assert((p.take(i).push(x) + p.skip(i)).push(s.last()) =~= s.take(i).push(x) + s.skip(i));
    }
}

// Sortedness.

/// Every flow that `insert_by_date` yields is `x` or a flow of `s`, so a
/// bound on both bounds the result.
proof fn lemma_insert_bounded(s: Seq<CashFlowView>, x: CashFlowView, b: int)
    requires
        forall|j: int| 0 <= j < s.len() ==> flow_key(#[trigger] s[j]) <= b,
        flow_key(x) <= b,
    ensures
        forall|j: int|
            0 <= j < insert_by_date(s, x).len() ==> flow_key(#[trigger] insert_by_date(s, x)[j])
                <= b,
        insert_by_date(s, x).len() == s.len() + 1,
    decreases s.len(),
{
    if s.len() > 0 && flow_key(s.last()) > flow_key(x) {
        let p = s.drop_last();
        assert forall|j: int| 0 <= j < p.len() implies flow_key(#[trigger] p[j]) <= b by {
            assert(p[j] == s[j]);
        }
        lemma_insert_bounded(p, x, b);
        let r = insert_by_date(p, x).push(s.last());
        assert forall|j: int| 0 <= j < r.len() implies flow_key(#[trigger] r[j]) <= b by {
            if j < r.len() - 1 {
                assert(r[j] == insert_by_date(p, x)[j]);
            } else {
                assert(r[j] == s[s.len() - 1]);
            }
        }
    }
}

proof fn lemma_insert_sorted(s: Seq<CashFlowView>, x: CashFlowView)
    requires
        is_sorted_by_date(s),
    ensures
        is_sorted_by_date(insert_by_date(s, x)),
    decreases s.len(),
{
    if s.len() == 0 {
    } else if flow_key(s.last()) <= flow_key(x) {
        let r = s.push(x);
        assert forall|i: int, j: int| 0 <= i < j < r.len() implies flow_key(r[i]) <= flow_key(
            r[j],
        ) by {
            if j == s.len() {
                assert(flow_key(s[i]) <= flow_key(s[s.len() - 1]));
            }
        }
    } else {
        let p = s.drop_last();
        let l = s.last();
        assert(is_sorted_by_date(p)) by {
            assert forall|i: int, j: int| 0 <= i < j < p.len() implies flow_key(p[i]) <= flow_key(
                p[j],
            ) by {
                assert(p[i] == s[i] && p[j] == s[j]);
            }
        }
        lemma_insert_sorted(p, x);
        assert forall|j: int| 0 <= j < p.len() implies flow_key(#[trigger] p[j]) <= flow_key(l) by {
            assert(p[j] == s[j]);
        }
        lemma_insert_bounded(p, x, flow_key(l));
        let q = insert_by_date(p, x);
        let r = q.push(l);
        assert forall|i: int, j: int| 0 <= i < j < r.len() implies flow_key(r[i]) <= flow_key(
            r[j],
        ) by {
            if j == q.len() {
                assert(flow_key(q[i]) <= flow_key(l));
            } else {
                assert(r[i] == q[i] && r[j] == q[j]);
            }
        }
    }
}

proof fn lemma_insert_all_sorted(s: Seq<CashFlowView>, xs: Seq<CashFlowView>)
    requires
        is_sorted_by_date(s),
    ensures
        is_sorted_by_date(insert_all(s, xs)),
    decreases xs.len(),
{
    if xs.len() > 0 {
        lemma_insert_all_sorted(s, xs.drop_last());
        lemma_insert_sorted(insert_all(s, xs.drop_last()), xs.last());
    }
}

// Stability and permutation.

pub open spec fn same_date_as(k: int) -> spec_fn(CashFlowView) -> bool {
    |f: CashFlowView| flow_key(f) == k
}

proof fn lemma_insert_filter(s: Seq<CashFlowView>, x: CashFlowView, k: int)
    ensures
        insert_by_date(s, x).filter(same_date_as(k)) == (if flow_key(x) == k {
            s.filter(same_date_as(k)).push(x)
        } else {
            s.filter(same_date_as(k))
        }),
    decreases s.len(),
{
    reveal(Seq::filter);
    let p = same_date_as(k);
    if s.len() == 0 {
        assert(seq![x].drop_last() =~= s);
        assert(s.filter(p) =~= s);
    } else if flow_key(s.last()) <= flow_key(x) {
        assert(s.push(x).drop_last() =~= s);
    } else {
        let q = s.drop_last();
        lemma_insert_filter(q, x, k);
        let r = insert_by_date(q, x).push(s.last());
        assert(r.drop_last() =~= insert_by_date(q, x));
    }
}

proof fn lemma_insert_all_filter(s: Seq<CashFlowView>, xs: Seq<CashFlowView>, k: int)
    ensures
        insert_all(s, xs).filter(same_date_as(k)) == s.filter(same_date_as(k)) + xs.filter(
            same_date_as(k),
        ),
    decreases xs.len(),
{
    reveal(Seq::filter);
    let p = same_date_as(k);
    if xs.len() == 0 {
        assert(xs.filter(p) =~= xs);
        assert(s.filter(p) + xs.filter(p) =~= s.filter(p));
    } else {
        lemma_insert_all_filter(s, xs.drop_last(), k);
        lemma_insert_filter(insert_all(s, xs.drop_last()), xs.last(), k);
        if flow_key(xs.last()) == k {
            assert(s.filter(p) + xs.filter(p) =~= (s.filter(p) + xs.drop_last().filter(p)).push(
                xs.last(),
            ));
        } else {
            assert(xs.filter(p) == xs.drop_last().filter(p));
        }
    }
}

proof fn lemma_insert_multiset(s: Seq<CashFlowView>, x: CashFlowView)
    ensures
        insert_by_date(s, x).to_multiset() == s.to_multiset().insert(x),
    decreases s.len(),
{
    broadcast use vstd::seq_lib::group_to_multiset_ensures;

    if s.len() == 0 {
        assert(seq![x] =~= s.push(x));
    } else if flow_key(s.last()) <= flow_key(x) {
    } else {
        let q = s.drop_last();
        lemma_insert_multiset(q, x);
        assert(s =~= q.push(s.last()));
        assert(s.to_multiset() == q.to_multiset().insert(s.last()));
        assert(insert_by_date(q, x).push(s.last()).to_multiset() =~= s.to_multiset().insert(x));
    }
}

proof fn lemma_insert_all_multiset(s: Seq<CashFlowView>, xs: Seq<CashFlowView>)
    ensures
        insert_all(s, xs).to_multiset() == s.to_multiset().add(xs.to_multiset()),
    decreases xs.len(),
{
    broadcast use vstd::seq_lib::group_to_multiset_ensures;

    if xs.len() == 0 {
        assert(xs.to_multiset() =~= Multiset::<CashFlowView>::empty());
        assert(s.to_multiset().add(xs.to_multiset()) =~= s.to_multiset());
    } else {
        lemma_insert_all_multiset(s, xs.drop_last());
        lemma_insert_multiset(insert_all(s, xs.drop_last()), xs.last());
        assert(xs =~= xs.drop_last().push(xs.last()));
        assert(xs.to_multiset() == xs.drop_last().to_multiset().insert(xs.last()));
        assert(s.to_multiset().add(xs.drop_last().to_multiset()).insert(xs.last()) =~= s.to_multiset().add(
            xs.to_multiset(),
        ));
    }
}

/// Ordering flows by date yields them in date order.
pub proof fn lemma_sort_by_date_sorted(s: Seq<CashFlowView>)
    ensures
        is_sorted_by_date(sort_by_date(s)),
{
    lemma_insert_all_sorted(Seq::empty(), s);
}

/// Ordering flows by date keeps every flow, as often as it occurs.
pub proof fn lemma_sort_by_date_permutes(s: Seq<CashFlowView>)
    ensures
        sort_by_date(s).to_multiset() == s.to_multiset(),
{
    broadcast use vstd::seq_lib::group_to_multiset_ensures;

    lemma_insert_all_multiset(Seq::empty(), s);
    assert(Seq::<CashFlowView>::empty().to_multiset() =~= Multiset::<CashFlowView>::empty());
    assert(Multiset::<CashFlowView>::empty().add(s.to_multiset()) =~= s.to_multiset());
}

/// Ordering flows by date keeps flows of the same date in their order.
pub proof fn lemma_sort_by_date_stable(s: Seq<CashFlowView>, k: int)
    ensures
        sort_by_date(s).filter(same_date_as(k)) == s.filter(same_date_as(k)),
{
    reveal(Seq::filter);
    let e = Seq::<CashFlowView>::empty();
    lemma_insert_all_filter(e, s, k);
    assert(e.filter(same_date_as(k)) =~= e);
    assert(e + s.filter(same_date_as(k)) =~= s.filter(same_date_as(k)));
}


/// `a` is the same calendar day as `b` or an earlier one, comparing years,
/// then months, then days.
pub open spec fn not_after(a: DateView, b: DateView) -> bool {
    a.year < b.year || (a.year == b.year && (a.month < b.month || (a.month == b.month && a.day
        <= b.day)))
}

pub open spec fn in_calendar_order(s: Seq<CashFlowView>) -> bool {
    forall|i: int, j: int| 0 <= i < j < s.len() ==> not_after(s[i].date, s[j].date)
}

/// Flows of valid dates that are sorted by date are in calendar order.
proof fn lemma_sorted_in_calendar_order(s: Seq<CashFlowView>)
    requires
        is_sorted_by_date(s),
        forall|k: int| 0 <= k < s.len() ==> (#[trigger] s[k]).date.is_valid(),
    ensures
        in_calendar_order(s),
{
    assert forall|i: int, j: int| 0 <= i < j < s.len() implies not_after(s[i].date, s[j].date) by {
        lemma_ordinal_is_lexicographic(s[i].date, s[j].date);
        lemma_ordinal_is_lexicographic(s[j].date, s[i].date);
    }
}

/// Ordering flows of valid dates by date puts them in calendar order: no
/// flow comes after a flow of an earlier day.
pub proof fn lemma_sort_by_date_chronological(s: Seq<CashFlowView>)
    requires
        forall|k: int| 0 <= k < s.len() ==> (#[trigger] s[k]).date.is_valid(),
    ensures
        in_calendar_order(sort_by_date(s)),
{
    broadcast use vstd::seq_lib::group_to_multiset_ensures;

    let r = sort_by_date(s);
    lemma_sort_by_date_sorted(s);
    lemma_sort_by_date_permutes(s);
    assert forall|k: int| 0 <= k < r.len() implies (#[trigger] r[k]).date.is_valid() by {
        assert(r.contains(r[k]));
        assert(r.to_multiset().count(r[k]) > 0);
        assert(s.contains(r[k]));
    }
    lemma_sorted_in_calendar_order(r);
}

// ---------------------------------------------------------------------------
// The flows that a statement records.
// ---------------------------------------------------------------------------

pub open spec fn fee_flow(fee: Fee) -> CashFlowView {
    CashFlowView {
        date: fee.date@,
        amount: fee.amount@,
        sibling_amount: None,
        description: if fee.amount@.amount.mantissa < 0 {
            "Комиссия брокера"@
        } else {
            "Возврат излишне удержанной комиссии"@
        },
    }
}

pub open spec fn deposit_or_withdrawal_flow(assets: CashAssets) -> CashFlowView {
    CashFlowView {
        date: assets.date@,
        amount: assets.cash@,
        sibling_amount: None,
        description: if assets.cash@.amount.mantissa > 0 {
            "Ввод денежных средств"@
        } else {
            "Вывод денежных средств"@
        },
    }
}

pub open spec fn interest_flow(interest: IdleCashInterest) -> CashFlowView {
    CashFlowView {
        date: interest.date@,
        amount: interest.amount@,
        sibling_amount: None,
        description: "Проценты на остаток по счету"@,
    }
}

pub open spec fn conversion_text(trade: ForexTrade) -> Seq<char> {
    cash_text(trade.from@) + " -> "@ + cash_text(trade.to@)
}

/// A currency conversion: the amount given away, with the amount received
/// beside it, and the commission when there is one.
pub open spec fn forex_flows(trade: ForexTrade) -> Seq<CashFlowView> {
    let conversion = CashFlowView {
        date: trade.conclusion_date@,
        amount: negated(trade.from@),
        sibling_amount: Some(trade.to@),
        description: "Конвертация "@ + conversion_text(trade),
    };
    if trade.commission@.amount.mantissa != 0 {
        seq![
            conversion,
            CashFlowView {
                date: trade.conclusion_date@,
                amount: negated(trade.commission@),
                sibling_amount: None,
                description: "Комиссия за конвертацию "@ + conversion_text(trade),
            },
        ]
    } else {
        seq![conversion]
    }
}

pub open spec fn all_forex_flows(trades: Seq<ForexTrade>) -> Seq<CashFlowView>
    decreases trades.len(),
{
    if trades.len() == 0 {
        Seq::empty()
    } else {
        all_forex_flows(trades.drop_last()) + forex_flows(trades.last())
    }
}

/// The cash flows of a statement in the order the statement lists them:
/// fees, deposits and withdrawals, interest, then currency conversions.
pub open spec fn statement_flows(statement: BrokerStatement) -> Seq<CashFlowView> {
    statement.fees@.map_values(|f: Fee| fee_flow(f)) + statement.cash_flows@.map_values(
        |a: CashAssets| deposit_or_withdrawal_flow(a),
    ) + statement.idle_cash_interest@.map_values(|i: IdleCashInterest| interest_flow(i))
        + all_forex_flows(statement.forex_trades@)
}

/// The cash flows of a statement, ordered by date; flows of the same date
/// keep the order in which the statement lists them.
pub fn map_broker_statement_to_cash_flow(statement: &BrokerStatement) -> (r: Vec<CashFlow>)
    ensures
        flows_view(r@) == sort_by_date(statement_flows(*statement)),
        is_sorted_by_date(flows_view(r@)),
        flows_view(r@).to_multiset() == statement_flows(*statement).to_multiset(),
        in_calendar_order(flows_view(r@)),
{
    let mapper = CashFlowMapper { cash_flows: Vec::new() };
    assert(mapper.flows() + statement_flows(*statement) =~= statement_flows(*statement));
    let r = mapper.process(statement);
    proof {
        lemma_sort_by_date_sorted(statement_flows(*statement));
        lemma_sort_by_date_permutes(statement_flows(*statement));
        assert forall|k: int| 0 <= k < flows_view(r@).len() implies (#[trigger] flows_view(
            r@,
        )[k]).date.is_valid() by {
            lemma_date_is_valid(r@[k].date);
        }
        lemma_sorted_in_calendar_order(flows_view(r@));
    }
    r
}

/// A statement's flows depend on its fees, deposits and withdrawals,
/// interest and currency conversions only.
pub proof fn lemma_statement_flows_depend_on_cash_items(s1: BrokerStatement, s2: BrokerStatement)
    requires
        s1.fees@ == s2.fees@,
        s1.cash_flows@ == s2.cash_flows@,
        s1.idle_cash_interest@ == s2.idle_cash_interest@,
        s1.forex_trades@ == s2.forex_trades@,
    ensures
        statement_flows(s1) == statement_flows(s2),
{
}

/// Puts `cash_flow` after the flows of its date and before later ones, in
/// a vector ordered by date.
fn insert_by_date_into(flows: &mut Vec<CashFlow>, cash_flow: CashFlow)
    ensures
        flows_view(final(flows)@) == insert_by_date(flows_view(old(flows)@), cash_flow@),
{
    let ghost s = flows_view(flows@);
    let mut i = flows.len();
    while i > 0 && cash_flow.date.is_before(&flows[i - 1].date)
        invariant
            i <= flows@.len(),
            s == flows_view(flows@),
            forall|j: int| i <= j < s.len() ==> flow_key(#[trigger] s[j]) > flow_key(cash_flow@),
        decreases i,
    {
        i = i - 1;
    }
    proof {
        lemma_insert_at(s, cash_flow@, i as int);
    }
    let ghost x = cash_flow@;
    flows.insert(i, cash_flow);
    assert(flows_view(flows@) =~= s.take(i as int).push(x) + s.skip(i as int));
}

/// Orders the flows by date, keeping the order of flows of the same date.
fn sort_cash_flows_by_date(flows: &mut Vec<CashFlow>)
    ensures
        flows_view(final(flows)@) == sort_by_date(flows_view(old(flows)@)),
{
    let mut rest: Vec<CashFlow> = Vec::new();
    std::mem::swap(flows, &mut rest);
    let ghost all = flows_view(rest@);
    let ghost empty = Seq::<CashFlowView>::empty();
    assert(flows_view(flows@) =~= insert_all(empty, all.take(0)));
    assert(flows_view(rest@) =~= all.skip(0));
    while rest.len() > 0
        invariant
            rest@.len() <= all.len(),
            flows_view(rest@) == all.skip(all.len() - rest@.len()),
            flows_view(flows@) == insert_all(empty, all.take(all.len() - rest@.len())),
        decreases rest@.len(),
    {
        let ghost done = all.len() - rest@.len();
        let ghost before = rest@;
        let cash_flow = rest.remove(0);
        proof {
            assert(cash_flow@ == flows_view(before)[0]);
            assert(cash_flow@ == all[done]);
            assert(flows_view(rest@) =~= flows_view(before).drop_first());
            assert(all.skip(done).drop_first() =~= all.skip(done + 1));
            assert(all.take(done + 1).drop_last() =~= all.take(done));
            assert(all.take(done + 1).last() == all[done]);
        }
        insert_by_date_into(flows, cash_flow);
    }
    assert(all.take(all.len() as int) =~= all);
}

/// Collects the cash flows of a statement.
struct CashFlowMapper {
    cash_flows: Vec<CashFlow>,
}

impl CashFlowMapper {
    spec fn flows(&self) -> Seq<CashFlowView> {
        flows_view(self.cash_flows@)
    }

    /// The flows collected so far and those of the statement, ordered by
    /// date; flows of the same date keep their order.
    fn process(self, statement: &BrokerStatement) -> (r: Vec<CashFlow>)
        ensures
            flows_view(r@) == sort_by_date(self.flows() + statement_flows(*statement)),
    {
        let mut mapper = self;
        let ghost start = mapper.flows();
        let ghost fees = statement.fees@.map_values(|f: Fee| fee_flow(f));
        let ghost deposits = statement.cash_flows@.map_values(
            |a: CashAssets| deposit_or_withdrawal_flow(a),
        );
        let ghost interest = statement.idle_cash_interest@.map_values(
            |i: IdleCashInterest| interest_flow(i),
        );
        assert(mapper.flows() =~= start + fees.take(0));
        let mut i: usize = 0;
        while i < statement.fees.len()
            invariant
                i <= statement.fees@.len(),
                fees == statement.fees@.map_values(|f: Fee| fee_flow(f)),
                mapper.flows() == start + fees.take(i as int),
            decreases statement.fees@.len() - i,
        {
            mapper.fee(&statement.fees[i]);
            assert(start + fees.take(i + 1) =~= (start + fees.take(i as int)).push(fees[i as int]));
            i = i + 1;
        }
        assert(fees.take(fees.len() as int) =~= fees);
        assert(mapper.flows() =~= start + fees + deposits.take(0));
        let mut i: usize = 0;
        while i < statement.cash_flows.len()
            invariant
                i <= statement.cash_flows@.len(),
                deposits == statement.cash_flows@.map_values(
                    |a: CashAssets| deposit_or_withdrawal_flow(a),
                ),
                mapper.flows() == start + fees + deposits.take(i as int),
            decreases statement.cash_flows@.len() - i,
        {
            mapper.deposit_or_withdrawal(&statement.cash_flows[i]);
            assert(start + fees + deposits.take(i + 1) =~= (start + fees + deposits.take(
                i as int,
            )).push(deposits[i as int]));
            i = i + 1;
        }
        assert(deposits.take(deposits.len() as int) =~= deposits);
        assert(mapper.flows() =~= start + fees + deposits + interest.take(0));
        let mut i: usize = 0;
        while i < statement.idle_cash_interest.len()
            invariant
                i <= statement.idle_cash_interest@.len(),
                interest == statement.idle_cash_interest@.map_values(
                    |i: IdleCashInterest| interest_flow(i),
                ),
                mapper.flows() == start + fees + deposits + interest.take(i as int),
            decreases statement.idle_cash_interest@.len() - i,
        {
            mapper.interest(&statement.idle_cash_interest[i]);
            assert(start + fees + deposits + interest.take(i + 1) =~= (start + fees + deposits
                + interest.take(i as int)).push(interest[i as int]));
            i = i + 1;
        }
        assert(interest.take(interest.len() as int) =~= interest);
        let ghost before_forex = start + fees + deposits + interest;
        assert(mapper.flows() =~= before_forex + all_forex_flows(
            statement.forex_trades@.take(0),
        ));
        let mut i: usize = 0;
        while i < statement.forex_trades.len()
            invariant
                i <= statement.forex_trades@.len(),
                mapper.flows() == before_forex + all_forex_flows(
                    statement.forex_trades@.take(i as int),
                ),
            decreases statement.forex_trades@.len() - i,
        {
            mapper.forex_trade(&statement.forex_trades[i]);
            proof {
                let trades = statement.forex_trades@;
                assert(trades.take(i + 1).drop_last() =~= trades.take(i as int));
                assert(before_forex + all_forex_flows(trades.take(i as int)) + forex_flows(
                    trades[i as int],
                ) =~= before_forex + all_forex_flows(trades.take(i + 1)));
            }
            i = i + 1;
        }
        assert(statement.forex_trades@.take(statement.forex_trades@.len() as int)
            =~= statement.forex_trades@);
        assert(before_forex + all_forex_flows(statement.forex_trades@) =~= start
            + statement_flows(*statement));
        sort_cash_flows_by_date(&mut mapper.cash_flows);
        mapper.cash_flows
    }

    fn fee(&mut self, fee: &Fee)
        ensures
            final(self).flows() == old(self).flows().push(fee_flow(*fee)),
    {
        let description = if fee.amount.is_negative() {
            "Комиссия брокера"
        } else {
            "Возврат излишне удержанной комиссии"
        };
        self.add_static(fee.date, fee.amount.clone(), description);
    }

    fn deposit_or_withdrawal(&mut self, assets: &CashAssets)
        ensures
            final(self).flows() == old(self).flows().push(deposit_or_withdrawal_flow(*assets)),
    {
        let description = if assets.cash.is_positive() {
            "Ввод денежных средств"
        } else {
            "Вывод денежных средств"
        };
        self.add_static(assets.date, assets.cash.clone(), description);
    }

    fn interest(&mut self, interest: &IdleCashInterest)
        ensures
            final(self).flows() == old(self).flows().push(interest_flow(*interest)),
    {
        self.add_static(interest.date, interest.amount.clone(), "Проценты на остаток по счету");
    }

    fn forex_trade(&mut self, trade: &ForexTrade)
        ensures
            final(self).flows() == old(self).flows() + forex_flows(*trade),
    {
        let mut pair = trade.from.to_text();
        pair.append(" -> ");
        pair.append(trade.to.to_text().as_str());
        let mut description = String::from_str("Конвертация ");
        description.append(pair.as_str());
        let ghost before = self.flows();
        let cash_flow = self.add(trade.conclusion_date, trade.from.neg(), description);
        cash_flow.sibling_amount = Some(trade.to.clone());
        let ghost first = forex_flows(*trade)[0];
        assert(self.flows() =~= before.push(first));
        if !trade.commission.is_zero() {
            let mut description = String::from_str("Комиссия за конвертацию ");
            description.append(pair.as_str());
            self.add(trade.conclusion_date, trade.commission.neg(), description);
            assert(self.flows() =~= before + forex_flows(*trade));
        } else {
            assert(self.flows() =~= before + forex_flows(*trade));
        }
    }

    fn add_static(&mut self, date: Date, amount: Cash, description: &str) -> (r: &mut CashFlow)
        ensures
            (*r)@ == (CashFlowView {
                date: date@,
                amount: amount@,
                sibling_amount: None,
                description: description@,
            }),
            final(self).cash_flows@ == old(self).cash_flows@.push(*final(r)),
    {
        self.add(date, amount, String::from_str(description))
    }

    /// Appends a flow and hands it back for further changes.
    fn add(&mut self, date: Date, amount: Cash, description: String) -> (r: &mut CashFlow)
        ensures
            (*r)@ == (CashFlowView {
                date: date@,
                amount: amount@,
                sibling_amount: None,
                description: description@,
            }),
            final(self).cash_flows@ == old(self).cash_flows@.push(*final(r)),
    {
        self.cash_flows.push(CashFlow { date, amount, sibling_amount: None, description });
        let last = self.cash_flows.len() - 1;
        &mut self.cash_flows[last]
    }
}

// ---------------------------------------------------------------------------
// Flows of trades and dividends.
// ---------------------------------------------------------------------------

/// The value of `quantity` units at `price` each, in the price's currency.
pub open spec fn volume(price: CashView, quantity: DecimalView) -> CashView {
    CashView {
        currency: price.currency,
        amount: DecimalView {
            mantissa: price.amount.mantissa * quantity.mantissa,
            scale: price.amount.scale + quantity.scale,
        },
    }
}

/// The volume of a trade can be written as a decimal exactly.
pub open spec fn volume_fits(price: CashView, quantity: DecimalView) -> bool {
    valid_decimal(volume(price, quantity).amount)
}

pub open spec fn trade_text(quantity: DecimalView, symbol: Seq<char>) -> Seq<char> {
    decimal_text(quantity) + " "@ + symbol
}

/// A flow and, where there is one, the commission or tax that goes with it.
pub open spec fn flow_pair_seq(p: (CashFlowView, Option<CashFlowView>)) -> Seq<CashFlowView> {
    match p.1 {
        Some(extra) => seq![p.0, extra],
        None => seq![p.0],
    }
}

pub open spec fn stock_buy_flows(trade: StockBuy) -> (CashFlowView, Option<CashFlowView>) {
    let text = trade_text(trade.quantity@, trade.symbol@);
    (
        CashFlowView {
            date: trade.conclusion_date@,
            amount: negated(volume(trade.price@, trade.quantity@)),
            sibling_amount: None,
            description: "Покупка "@ + text,
        },
        if trade.commission@.amount.mantissa != 0 {
            Some(
                CashFlowView {
                    date: trade.conclusion_date@,
                    amount: negated(trade.commission@),
                    sibling_amount: None,
                    description: "Комиссия за покупку "@ + text,
                },
            )
        } else {
            None
        },
    )
}

pub open spec fn stock_sell_flows(trade: StockSell) -> (CashFlowView, Option<CashFlowView>) {
    let text = trade_text(trade.quantity@, trade.symbol@);
    (
        CashFlowView {
            date: trade.conclusion_date@,
            amount: volume(trade.price@, trade.quantity@),
            sibling_amount: None,
            description: "Продажа "@ + text,
        },
        if trade.commission@.amount.mantissa != 0 {
            Some(
                CashFlowView {
                    date: trade.conclusion_date@,
                    amount: negated(trade.commission@),
                    sibling_amount: None,
                    description: "Комиссия за продажу "@ + text,
                },
            )
        } else {
            None
        },
    )
}

pub open spec fn dividend_flows(dividend: Dividend) -> (CashFlowView, Option<CashFlowView>) {
    (
        CashFlowView {
            date: dividend.date@,
            amount: dividend.amount@,
            sibling_amount: None,
            description: "Дивиденд от "@ + dividend.issuer@,
        },
        if dividend.paid_tax@.amount.mantissa != 0 {
            Some(
                CashFlowView {
                    date: dividend.date@,
                    amount: negated(dividend.paid_tax@),
                    sibling_amount: None,
                    description: "Налог, удержанный с дивиденда от "@ + dividend.issuer@,
                },
            )
        } else {
            None
        },
    )
}

pub open spec fn all_stock_buy_flows(trades: Seq<StockBuy>) -> Seq<CashFlowView>
    decreases trades.len(),
{
    if trades.len() == 0 {
        Seq::empty()
    } else {
        all_stock_buy_flows(trades.drop_last()) + flow_pair_seq(stock_buy_flows(trades.last()))
    }
}

pub open spec fn all_stock_sell_flows(trades: Seq<StockSell>) -> Seq<CashFlowView>
    decreases trades.len(),
{
    if trades.len() == 0 {
        Seq::empty()
    } else {
        all_stock_sell_flows(trades.drop_last()) + flow_pair_seq(stock_sell_flows(trades.last()))
    }
}

pub open spec fn all_dividend_flows(dividends: Seq<Dividend>) -> Seq<CashFlowView>
    decreases dividends.len(),
{
    if dividends.len() == 0 {
        Seq::empty()
    } else {
        all_dividend_flows(dividends.drop_last()) + flow_pair_seq(dividend_flows(dividends.last()))
    }
}

/// The flows of share trades and dividends, in the order the statement lists
/// them: purchases, sales, dividends.
pub open spec fn account_flows(statement: BrokerStatement) -> Seq<CashFlowView> {
    all_stock_buy_flows(statement.stock_buys@) + all_stock_sell_flows(statement.stock_sells@)
        + all_dividend_flows(statement.dividends@)
}

/// `flow` moves `amount`: the same currency, scale and signed mantissa.
pub open spec fn moves(flow: CashFlowView, amount: CashView) -> bool {
    &&& flow.amount.currency == amount.currency
    &&& flow.amount.amount.scale == amount.amount.scale
    &&& flow.amount.amount.mantissa == amount.amount.mantissa
}

/// `flow` takes `amount` away: the same currency and scale, the opposite
/// sign.
pub open spec fn takes_away(flow: CashFlowView, amount: CashView) -> bool {
    &&& flow.amount.currency == amount.currency
    &&& flow.amount.amount.scale == amount.amount.scale
    &&& flow.amount.amount.mantissa == -amount.amount.mantissa
}

/// `flow` moves the value of `quantity` units at `price`, received when
/// `received` and paid otherwise.
pub open spec fn moves_volume(flow: CashFlowView, price: CashView, quantity: DecimalView, received: bool) -> bool {
    &&& flow.amount.currency == price.currency
    &&& flow.amount.amount.scale == price.amount.scale + quantity.scale
    &&& flow.amount.amount.mantissa == if received {
        price.amount.mantissa * quantity.mantissa
    } else {
        -(price.amount.mantissa * quantity.mantissa)
    }
}

/// A purchase pays its volume and its commission, a sale receives its
/// volume and pays its commission, a dividend is received and its tax paid;
/// the commission or tax flow is there exactly when it is not zero, and every
/// flow is dated on the day of the trade or dividend.
pub proof fn lemma_trade_and_dividend_flow_amounts(buy: StockBuy, sell: StockSell, dividend: Dividend)
    ensures
        moves_volume(stock_buy_flows(buy).0, buy.price@, buy.quantity@, false),
        stock_buy_flows(buy).0.date == buy.conclusion_date@,
        stock_buy_flows(buy).1 is Some <==> buy.commission@.amount.mantissa != 0,
        stock_buy_flows(buy).1 matches Some(c) ==> takes_away(c, buy.commission@) && c.date
            == buy.conclusion_date@,
        moves_volume(stock_sell_flows(sell).0, sell.price@, sell.quantity@, true),
        stock_sell_flows(sell).0.date == sell.conclusion_date@,
        stock_sell_flows(sell).1 is Some <==> sell.commission@.amount.mantissa != 0,
        stock_sell_flows(sell).1 matches Some(c) ==> takes_away(c, sell.commission@) && c.date
            == sell.conclusion_date@,
        moves(dividend_flows(dividend).0, dividend.amount@),
        dividend_flows(dividend).0.date == dividend.date@,
        dividend_flows(dividend).1 is Some <==> dividend.paid_tax@.amount.mantissa != 0,
        dividend_flows(dividend).1 matches Some(t) ==> takes_away(t, dividend.paid_tax@) && t.date
            == dividend.date@,
{
}

pub open spec fn opt_flow_view(f: Option<CashFlow>) -> Option<CashFlowView> {
    match f {
        Some(f) => Some(f@),
        None => None,
    }
}

/// `quantity` units at `price` each.
fn trade_volume(price: &Cash, quantity: &Decimal) -> (r: Cash)
    requires
        volume_fits(price@, quantity@),
    ensures
        r@ == volume(price@, quantity@),
{
    Cash { currency: price.currency.clone(), amount: price.amount.checked_mul(quantity).unwrap() }
}

/// `<prefix><quantity> <symbol>`.
fn trade_description(prefix: &str, quantity: &Decimal, symbol: &String) -> (r: String)
    ensures
        r@ == prefix@ + trade_text(quantity@, symbol@),
{
    let mut text = String::from_str(prefix);
    text.append(quantity.to_text().as_str());
    text.append(" ");
    text.append(symbol.as_str());
    proof {
        reveal_strlit(" ");
    }
    assert(text@ =~= prefix@ + trade_text(quantity@, symbol@));
    text
}

pub fn new_from_stock_buy(trade: &StockBuy) -> (r: (CashFlow, Option<CashFlow>))
    requires
        volume_fits(trade.price@, trade.quantity@),
    ensures
        (r.0@, opt_flow_view(r.1)) == stock_buy_flows(*trade),
        moves_volume(r.0@, trade.price@, trade.quantity@, false),
        r.0@.date == trade.conclusion_date@,
        r.1 is Some <==> trade.commission@.amount.mantissa != 0,
        r.1 matches Some(c) ==> takes_away(c@, trade.commission@) && c@.date
            == trade.conclusion_date@,
{
    let volume = trade_volume(&trade.price, &trade.quantity);
    let description = trade_description("Покупка ", &trade.quantity, &trade.symbol);
    let cash_flow = CashFlow::new(trade.conclusion_date, volume.neg(), description);
    let commission = if !trade.commission.is_zero() {
        let description = trade_description("Комиссия за покупку ", &trade.quantity, &trade.symbol);
        Some(CashFlow::new(trade.conclusion_date, trade.commission.neg(), description))
    } else {
        None
    };
    (cash_flow, commission)
}

pub fn new_from_stock_sell(trade: &StockSell) -> (r: (CashFlow, Option<CashFlow>))
    requires
        volume_fits(trade.price@, trade.quantity@),
    ensures
        (r.0@, opt_flow_view(r.1)) == stock_sell_flows(*trade),
        moves_volume(r.0@, trade.price@, trade.quantity@, true),
        r.0@.date == trade.conclusion_date@,
        r.1 is Some <==> trade.commission@.amount.mantissa != 0,
        r.1 matches Some(c) ==> takes_away(c@, trade.commission@) && c@.date
            == trade.conclusion_date@,
{
    let volume = trade_volume(&trade.price, &trade.quantity);
    let description = trade_description("Продажа ", &trade.quantity, &trade.symbol);
    let cash_flow = CashFlow::new(trade.conclusion_date, volume, description);
    let commission = if !trade.commission.is_zero() {
        let description = trade_description("Комиссия за продажу ", &trade.quantity, &trade.symbol);
        Some(CashFlow::new(trade.conclusion_date, trade.commission.neg(), description))
    } else {
        None
    };
    (cash_flow, commission)
}

pub fn new_from_dividend(dividend: &Dividend) -> (r: (CashFlow, Option<CashFlow>))
    ensures
        (r.0@, opt_flow_view(r.1)) == dividend_flows(*dividend),
        moves(r.0@, dividend.amount@),
        r.0@.date == dividend.date@,
        r.1 is Some <==> dividend.paid_tax@.amount.mantissa != 0,
        r.1 matches Some(t) ==> takes_away(t@, dividend.paid_tax@) && t@.date == dividend.date@,
{
    let mut description = String::from_str("Дивиденд от ");
    description.append(dividend.issuer.as_str());
    let cash_flow = CashFlow::new(dividend.date, dividend.amount.clone(), description);
    let paid_tax = if !dividend.paid_tax.is_zero() {
        let mut description = String::from_str("Налог, удержанный с дивиденда от ");
        description.append(dividend.issuer.as_str());
        Some(CashFlow::new(dividend.date, dividend.paid_tax.neg(), description))
    } else {
        None
    };
    (cash_flow, paid_tax)
}

/// Appends a flow and, where there is one, the flow that goes with it.
fn push_pair(out: &mut Vec<CashFlow>, pair: (CashFlow, Option<CashFlow>))
    ensures
        flows_view(final(out)@) == flows_view(old(out)@) + flow_pair_seq(
            (pair.0@, opt_flow_view(pair.1)),
        ),
{
    let (cash_flow, extra) = pair;
    let ghost first = cash_flow@;
    out.push(cash_flow);
    match extra {
        Some(extra) => {
            let ghost second = extra@;
            out.push(extra);
            assert(flows_view(out@) =~= flows_view(old(out)@) + seq![first, second]);
        },
        None => {
            assert(flows_view(out@) =~= flows_view(old(out)@) + seq![first]);
        },
    }
}

/// The account flows depend on the share trades and dividends only.
pub proof fn lemma_account_flows_depend_on_trades(s1: BrokerStatement, s2: BrokerStatement)
    requires
        s1.stock_buys@ == s2.stock_buys@,
        s1.stock_sells@ == s2.stock_sells@,
        s1.dividends@ == s2.dividends@,
    ensures
        account_flows(s1) == account_flows(s2),
{
}

/// The flows of share trades and dividends.
pub fn get_account_cash_flow(statement: &BrokerStatement) -> (r: Vec<CashFlow>)
    requires
        forall|i: int|
            0 <= i < statement.stock_buys@.len() ==> volume_fits(
                #[trigger] statement.stock_buys@[i].price@,
                statement.stock_buys@[i].quantity@,
            ),
        forall|i: int|
            0 <= i < statement.stock_sells@.len() ==> volume_fits(
                #[trigger] statement.stock_sells@[i].price@,
                statement.stock_sells@[i].quantity@,
            ),
    ensures
        flows_view(r@) == account_flows(*statement),
{
    let mut cash_flows: Vec<CashFlow> = Vec::new();
    let ghost buys = statement.stock_buys@;
    let ghost sells = statement.stock_sells@;
    let ghost dividends = statement.dividends@;
    assert(flows_view(cash_flows@) =~= all_stock_buy_flows(buys.take(0)));
    let mut i: usize = 0;
    while i < statement.stock_buys.len()
        invariant
            i <= buys.len(),
            buys == statement.stock_buys@,
            forall|k: int|
                0 <= k < buys.len() ==> volume_fits(#[trigger] buys[k].price@, buys[k].quantity@),
            flows_view(cash_flows@) == all_stock_buy_flows(buys.take(i as int)),
        decreases buys.len() - i,
    {
        assert(buys.take(i + 1).drop_last() =~= buys.take(i as int));
        push_pair(&mut cash_flows, new_from_stock_buy(&statement.stock_buys[i]));
        i = i + 1;
    }
    assert(buys.take(buys.len() as int) =~= buys);
    let ghost done = all_stock_buy_flows(buys);
    assert(flows_view(cash_flows@) =~= done + all_stock_sell_flows(sells.take(0)));
    let mut i: usize = 0;
    while i < statement.stock_sells.len()
        invariant
            i <= sells.len(),
            sells == statement.stock_sells@,
            forall|k: int|
                0 <= k < sells.len() ==> volume_fits(#[trigger] sells[k].price@, sells[k].quantity@),
            flows_view(cash_flows@) == done + all_stock_sell_flows(sells.take(i as int)),
        decreases sells.len() - i,
    {
        assert(sells.take(i + 1).drop_last() =~= sells.take(i as int));
        push_pair(&mut cash_flows, new_from_stock_sell(&statement.stock_sells[i]));
        assert(flows_view(cash_flows@) =~= done + all_stock_sell_flows(sells.take(i + 1)));
        i = i + 1;
    }
    assert(sells.take(sells.len() as int) =~= sells);
    let ghost done = done + all_stock_sell_flows(sells);
    assert(flows_view(cash_flows@) =~= done + all_dividend_flows(dividends.take(0)));
    let mut i: usize = 0;
    while i < statement.dividends.len()
        invariant
            i <= dividends.len(),
            dividends == statement.dividends@,
            flows_view(cash_flows@) == done + all_dividend_flows(dividends.take(i as int)),
        decreases dividends.len() - i,
    {
        assert(dividends.take(i + 1).drop_last() =~= dividends.take(i as int));
        push_pair(&mut cash_flows, new_from_dividend(&statement.dividends[i]));
        assert(flows_view(cash_flows@) =~= done + all_dividend_flows(dividends.take(i + 1)));
        i = i + 1;
    }
    assert(dividends.take(dividends.len() as int) =~= dividends);
    cash_flows
}

} // verus!
