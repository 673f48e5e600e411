//! Settlement: the owner of a table adjusts balances, and those who leave are
//! paid out of the custody pool and give up their seats.

use vstd::prelude::*;
use crate::errors::PokerError;
use crate::pubkey::{associated_token_address, get_associated_token_address, Pubkey};
use crate::state::{
    addresses, committed, distinct_addresses, find_seat, first_index, is_first,
    lemma_committed_remove, lemma_committed_update, lemma_contains_has_first, lemma_first_index,
    seat_of, seated, stake, GameStatus, Ledger, SeatedPlayer, Settle, SettleAccounts, SettleOp,
    SettleParams, Transfer,
};

verus! {

/// A balance after one adjustment, or `None` where the result would leave the
/// range of the balance: more than can be counted, or less than nothing.
pub open spec fn adjusted_balance(balance: u64, op: SettleOp) -> Option<u64> {
    match op {
        SettleOp::Add(amount) => if balance + amount <= u64::MAX {
            Some((balance + amount) as u64)
        } else {
            None
        },
        SettleOp::Sub(amount) => if amount <= balance {
            Some((balance - amount) as u64)
        } else {
            None
        },
    }
}

/// The seats after one adjustment. It is refused with `NotAtTable` where the
/// participant has no seat, and with `DepositTooLarge` where the balance would
/// leave its range.
pub open spec fn adjust_one(players: Seq<SeatedPlayer>, s: Settle) -> Result<
    Seq<SeatedPlayer>,
    PokerError,
> {
    if !seated(players, s.addr) {
        Err(PokerError::NotAtTable)
    } else {
        let i = seat_of(players, s.addr);
        match adjusted_balance(players[i].balance, s.op) {
            Some(balance) => Ok(players.update(i, SeatedPlayer { balance, ..players[i] })),
            None => Err(PokerError::DepositTooLarge),
        }
    }
}

/// The seats after the adjustments of `settles`, applied one after the other
/// from the first on; the first one that is refused refuses them all.
pub open spec fn adjust(players: Seq<SeatedPlayer>, settles: Seq<Settle>) -> Result<
    Seq<SeatedPlayer>,
    PokerError,
>
    decreases settles.len(),
{
    if settles.len() == 0 {
        Ok(players)
    } else {
        match adjust_one(players, settles.first()) {
            Ok(next) => adjust(next, settles.drop_first()),
            Err(e) => Err(e),
        }
    }
}

/// The outcome of paying out, with the transfers `paid` put before its own.
pub open spec fn after_paying(
    paid: Seq<Transfer>,
    outcome: Result<(Seq<SeatedPlayer>, Seq<Transfer>), PokerError>,
) -> Result<(Seq<SeatedPlayer>, Seq<Transfer>), PokerError> {
    match outcome {
        Ok((players, more)) => Ok((players, paid + more)),
        Err(e) => Err(e),
    }
}

/// The seats that stay and the transfers to make when the holders of the
/// accounts `recipients` leave, one after the other from the first on.
///
/// `holdings` has, seat by seat, the account in which the participant of the
/// seat holds the pool's unit of account. A recipient stands for the first
/// seat whose holding account it is; it is refused with `NotAtTable` where
/// there is none. The participant is paid balance and add-on together and
/// gives up the seat; where the two together cannot be counted, the payout is
/// refused with `DepositTooLarge`. Every transfer goes from `pool`, on the
/// word of `authority`.
pub open spec fn pay_out(
    players: Seq<SeatedPlayer>,
    holdings: Seq<Option<Pubkey>>,
    recipients: Seq<Pubkey>,
    pool: Pubkey,
    authority: Pubkey,
) -> Result<(Seq<SeatedPlayer>, Seq<Transfer>), PokerError>
    decreases recipients.len(),
{
    if recipients.len() == 0 {
        Ok((players, Seq::empty()))
    } else {
        let recipient = recipients.first();
        if !holdings.contains(Some(recipient)) {
            Err(PokerError::NotAtTable)
        } else {
            let i = first_index(holdings, Some(recipient));
            if stake(players[i]) > u64::MAX {
                Err(PokerError::DepositTooLarge)
            } else {
                let order = Transfer {
                    from: pool,
                    to: recipient,
                    authority,
                    amount: stake(players[i]) as u64,
                };
                after_paying(
                    seq![order],
                    pay_out(
                        players.remove(i),
                        holdings.remove(i),
                        recipients.drop_first(),
                        pool,
                        authority,
                    ),
                )
            }
        }
    }
}

/// What a settlement comes to: the seats that stay, with their balances, and
/// the transfers to make; or why it is refused.
///
/// Only the owner may settle (`NotGameOwner`), and only an active table
/// (`GameNotActive`). Then all the adjustments are applied, and after them
/// the payouts are made.
pub open spec fn settlement(
    ledger: Ledger,
    caller: Pubkey,
    settles: Seq<Settle>,
    holdings: Seq<Option<Pubkey>>,
    recipients: Seq<Pubkey>,
    pool: Pubkey,
    authority: Pubkey,
) -> Result<(Seq<SeatedPlayer>, Seq<Transfer>), PokerError> {
    if ledger.owner != caller {
        Err(PokerError::NotGameOwner)
    } else if ledger.status != GameStatus::Active {
        Err(PokerError::GameNotActive)
    } else {
        match adjust(ledger.players, settles) {
            Ok(adjusted) => pay_out(adjusted, holdings, recipients, pool, authority),
            Err(e) => Err(e),
        }
    }
}

/// For each seat, the account in which its participant holds units of `mint`.
pub open spec fn holding_accounts(players: Seq<SeatedPlayer>, mint: Pubkey) -> Seq<Option<Pubkey>> {
    Seq::new(players.len(), |i: int| associated_token_address(players[i].address, mint))
}

/// Vacating a seat leaves the others with distinct participants.
pub proof fn lemma_remove_keeps_distinct(players: Seq<SeatedPlayer>, i: int)
    requires
        distinct_addresses(players),
        0 <= i < players.len(),
    ensures
        distinct_addresses(players.remove(i)),
        addresses(players.remove(i)) == addresses(players).remove(i),
{
    let before = addresses(players);
    let after = addresses(players.remove(i));
    assert(after =~= before.remove(i));
    assert forall|a: int, b: int| 0 <= a < after.len() && 0 <= b < after.len() && a != b implies after[a]
        != after[b] by {
        let a0 = if a < i { a } else { a + 1 };
        let b0 = if b < i { b } else { b + 1 };
        assert(after[a] == before[a0]);
        assert(after[b] == before[b0]);
    }
}

/// Adjustments applied in two batches, one after the other, come to the same
/// as all of them applied in one.
pub proof fn lemma_adjust_in_two(players: Seq<SeatedPlayer>, first: Seq<Settle>, second: Seq<Settle>)
    ensures
        adjust(players, first + second) == match adjust(players, first) {
            Ok(mid) => adjust(mid, second),
            Err(e) => Err(e),
        },
    decreases first.len(),
{
    if first.len() == 0 {
        assert(first + second =~= second);
    } else {
        assert((first + second).first() == first.first());
        assert((first + second).drop_first() =~= first.drop_first() + second);
        if let Ok(next) = adjust_one(players, first.first()) {
            lemma_adjust_in_two(next, first.drop_first(), second);
        }
    }
}

/// An adjustment changes no participant and no seat's place.
pub proof fn lemma_adjust_one_keeps_seats(players: Seq<SeatedPlayer>, s: Settle)
    ensures
        adjust_one(players, s) matches Ok(next) ==> addresses(next) == addresses(players),
{
    if let Ok(next) = adjust_one(players, s) {
        lemma_contains_has_first(addresses(players), s.addr);
        assert(addresses(next) =~= addresses(players));
    }
}

/// Two additions to the balance of one participant in one batch add up: the
/// balance grows by the sum of both amounts, in whichever order they stand,
/// and the batch is refused where that sum cannot be counted.
pub proof fn lemma_two_adds_add_up(players: Seq<SeatedPlayer>, who: Pubkey, a: u64, b: u64)
    requires
        seated(players, who),
    ensures
        ({
            let i = seat_of(players, who);
            let sum = players[i].balance + a + b;
            let ab = seq![
                Settle { addr: who, op: SettleOp::Add(a) },
                Settle { addr: who, op: SettleOp::Add(b) },
            ];
            let ba = seq![
                Settle { addr: who, op: SettleOp::Add(b) },
                Settle { addr: who, op: SettleOp::Add(a) },
            ];
            &&& adjust(players, ab) == adjust(players, ba)
            &&& adjust(players, ab) == if sum <= u64::MAX {
                Ok::<_, PokerError>(
                    players.update(i, SeatedPlayer { balance: sum as u64, ..players[i] }),
                )
            } else {
                Err(PokerError::DepositTooLarge)
            }
        }),
{
    lemma_two_adds(players, who, a, b);
    lemma_two_adds(players, who, b, a);
}

proof fn lemma_two_adds(players: Seq<SeatedPlayer>, who: Pubkey, a: u64, b: u64)
    requires
        seated(players, who),
    ensures
        ({
            let i = seat_of(players, who);
            let sum = players[i].balance + a + b;
            let batch = seq![
                Settle { addr: who, op: SettleOp::Add(a) },
                Settle { addr: who, op: SettleOp::Add(b) },
            ];
            adjust(players, batch) == if sum <= u64::MAX {
                Ok::<_, PokerError>(
                    players.update(i, SeatedPlayer { balance: sum as u64, ..players[i] }),
                )
            } else {
                Err(PokerError::DepositTooLarge)
            }
        }),
{
    let i = seat_of(players, who);
    let first = Settle { addr: who, op: SettleOp::Add(a) };
    let second = Settle { addr: who, op: SettleOp::Add(b) };
    let batch = seq![first, second];
    reveal_with_fuel(adjust, 3);
    lemma_contains_has_first(addresses(players), who);
    assert(batch.first() == first);
    assert(batch.drop_first() =~= seq![second]);
    assert(seq![second].first() == second);
    assert(seq![second].drop_first() =~= Seq::<Settle>::empty());
    if let Ok(next) = adjust_one(players, first) {
        lemma_adjust_one_keeps_seats(players, first);
        assert(seat_of(next, who) == i);
        assert(seated(next, who));
        if let Ok(last) = adjust_one(next, second) {
            assert(adjust(last, Seq::<Settle>::empty()) == Ok::<_, PokerError>(last));
            assert(last =~= players.update(
                i,
                SeatedPlayer { balance: (players[i].balance + a + b) as u64, ..players[i] },
            ));
        }
    }
}

/// Whether `s` takes more from the balance of a seated participant than
/// stands there.
pub open spec fn overdraws(players: Seq<SeatedPlayer>, s: Settle) -> bool {
    &&& seated(players, s.addr)
    &&& s.op matches SettleOp::Sub(amount)
    &&& amount > players[seat_of(players, s.addr)].balance
}

/// A subtraction of more than the balance that stands when its turn comes
/// refuses the whole batch, whatever comes after it, and with it the whole
/// settlement.
pub proof fn lemma_sub_beyond_balance_refused(
    ledger: Ledger,
    caller: Pubkey,
    settles: Seq<Settle>,
    k: int,
    holdings: Seq<Option<Pubkey>>,
    recipients: Seq<Pubkey>,
    pool: Pubkey,
    authority: Pubkey,
)
    requires
        0 <= k < settles.len(),
        adjust(ledger.players, settles.take(k)) matches Ok(mid) && overdraws(mid, settles[k]),
    ensures
        adjust(ledger.players, settles) == Err::<Seq<SeatedPlayer>, _>(PokerError::DepositTooLarge),
        settlement(ledger, caller, settles, holdings, recipients, pool, authority) is Err,
        ledger.owner == caller && ledger.status == GameStatus::Active ==> settlement(
            ledger,
            caller,
            settles,
            holdings,
            recipients,
            pool,
            authority,
        ) == Err::<(Seq<SeatedPlayer>, Seq<Transfer>), _>(PokerError::DepositTooLarge),
{
    let rest = settles.skip(k);
    assert(settles =~= settles.take(k) + rest);
    lemma_adjust_in_two(ledger.players, settles.take(k), rest);
    assert(rest.first() == settles[k]);
}

/// What a batch of adjustments adds to the balances, all in all: the
/// additions less the subtractions.
pub open spec fn net_adjustment(settles: Seq<Settle>) -> int
    decreases settles.len(),
{
    if settles.len() == 0 {
        0
    } else {
        let rest = net_adjustment(settles.drop_first());
        match settles.first().op {
            SettleOp::Add(amount) => amount + rest,
            SettleOp::Sub(amount) => rest - amount,
        }
    }
}

/// A batch of adjustments changes what the ledger owes by just what it adds
/// to the balances, and changes neither who is seated nor where.
pub proof fn lemma_adjust_committed(players: Seq<SeatedPlayer>, settles: Seq<Settle>)
    ensures
        adjust(players, settles) matches Ok(adjusted) ==> {
            &&& committed(adjusted) == committed(players) + net_adjustment(settles)
            &&& addresses(adjusted) == addresses(players)
            &&& forall|i: int| 0 <= i < players.len() ==> adjusted[i].add_on == players[i].add_on
        },
    decreases settles.len(),
{
    if settles.len() > 0 {
        let s = settles.first();
        if let Ok(next) = adjust_one(players, s) {
            lemma_contains_has_first(addresses(players), s.addr);
            lemma_adjust_one_keeps_seats(players, s);
            let i = seat_of(players, s.addr);
            lemma_committed_update(players, i, next[i]);
            lemma_adjust_committed(next, settles.drop_first());
            if let Ok(adjusted) = adjust(next, settles.drop_first()) {
                assert(addresses(adjusted).len() == adjusted.len());
                assert(addresses(players).len() == players.len());
                assert forall|j: int| 0 <= j < players.len() implies adjusted[j].add_on
                    == players[j].add_on by {
                    assert(next[j].add_on == players[j].add_on);
                }
            }
        }
    }
}

/// The amounts of the given transfers together.
pub open spec fn total(orders: Seq<Transfer>) -> nat
    decreases orders.len(),
{
    if orders.len() == 0 {
        0
    } else {
        orders.first().amount as nat + total(orders.drop_first())
    }
}

/// Whether `amount` pays off the participant of seat `i`, whose holding
/// account is `recipient`: it is what stood at the seat, balance and add-on
/// together, and the participant has no seat among `rest`.
pub open spec fn pays_off(
    players: Seq<SeatedPlayer>,
    holdings: Seq<Option<Pubkey>>,
    rest: Seq<SeatedPlayer>,
    recipient: Pubkey,
    amount: u64,
    i: int,
) -> bool {
    &&& 0 <= i < players.len()
    &&& holdings[i] == Some(recipient)
    &&& amount == stake(players[i])
    &&& !seated(rest, players[i].address)
}

/// Whether `amount` pays off a participant among `players` whose holding
/// account is `recipient`, and who has no seat among `rest`.
pub open spec fn paid_off(
    players: Seq<SeatedPlayer>,
    holdings: Seq<Option<Pubkey>>,
    rest: Seq<SeatedPlayer>,
    recipient: Pubkey,
    amount: u64,
) -> bool {
    exists|i: int| pays_off(players, holdings, rest, recipient, amount, i)
}

/// Departure. When payouts are made, there is one transfer for each
/// recipient, in their order, out of the pool and to the recipient. Each pays
/// a participant who was seated exactly the balance and add-on that stood at
/// their seat, and that participant is seated no longer. Whoever is still
/// seated has the seat unchanged, and nobody else has lost theirs. What the
/// ledger owes has gone down by just what is paid.
pub proof fn lemma_departure(
    players: Seq<SeatedPlayer>,
    holdings: Seq<Option<Pubkey>>,
    recipients: Seq<Pubkey>,
    pool: Pubkey,
    authority: Pubkey,
)
    requires
        distinct_addresses(players),
        holdings.len() == players.len(),
    ensures
        pay_out(players, holdings, recipients, pool, authority) matches Ok((rest, paid)) ==> {
            &&& paid.len() == recipients.len()
            &&& rest.len() + paid.len() == players.len()
            &&& distinct_addresses(rest)
            &&& committed(rest) + total(paid) == committed(players)
            &&& forall|k: int|
                0 <= k < paid.len() ==> {
                    &&& (#[trigger] paid[k]).from == pool
                    &&& paid[k].to == recipients[k]
                    &&& paid[k].authority == authority
                }
            &&& forall|k: int|
                0 <= k < paid.len() ==> #[trigger] paid_off(
                    players,
                    holdings,
                    rest,
                    recipients[k],
                    paid[k].amount,
                )
            &&& forall|j: int| 0 <= j < rest.len() ==> players.contains(#[trigger] rest[j])
            &&& forall|i: int|
                0 <= i < players.len() ==> rest.contains(#[trigger] players[i]) || exists|k: int|
                    0 <= k < recipients.len() && holdings[i] == Some(#[trigger] recipients[k])
        },
    decreases recipients.len(),
{
    if recipients.len() == 0 {
        let rest = players;
        assert forall|i: int| 0 <= i < players.len() implies rest.contains(
            #[trigger] players[i],
        ) by {
            assert(rest[i] == players[i]);
        }
    } else if let Ok((rest, paid)) = pay_out(players, holdings, recipients, pool, authority) {
        let recipient = recipients.first();
        lemma_contains_has_first(holdings, Some(recipient));
        let i = first_index(holdings, Some(recipient));
        let gone = players[i];
        let fewer = players.remove(i);
        let fewer_holdings = holdings.remove(i);
        let later = recipients.drop_first();
        let order = Transfer { from: pool, to: recipient, authority, amount: stake(gone) as u64 };
        lemma_remove_keeps_distinct(players, i);
        lemma_committed_remove(players, i);
        lemma_departure(fewer, fewer_holdings, later, pool, authority);
        let inner = pay_out(fewer, fewer_holdings, later, pool, authority);
        let more = inner->Ok_0.1;
        assert(inner->Ok_0.0 == rest);
        assert(paid =~= seq![order] + more);
        assert(paid.first() == order);
        assert(paid.drop_first() =~= more);
        // who stays was seated, with the same record
        assert forall|j: int| 0 <= j < rest.len() implies players.contains(#[trigger] rest[j]) by {
            assert(fewer.contains(rest[j]));
            let f = choose|f: int| 0 <= f < fewer.len() && fewer[f] == rest[j];
            let f0 = if f < i { f } else { f + 1 };
            assert(players[f0] == rest[j]);
        }
        // the one who left first is seated no longer
        assert(!seated(rest, gone.address)) by {
            if seated(rest, gone.address) {
                let j = choose|j: int|
                    0 <= j < addresses(rest).len() && addresses(rest)[j] == gone.address;
                assert(fewer.contains(rest[j]));
                let f = choose|f: int| 0 <= f < fewer.len() && fewer[f] == rest[j];
                let f0 = if f < i { f } else { f + 1 };
                assert(players[f0] == rest[j]);
                assert(addresses(players)[f0] == gone.address);
                assert(addresses(players)[i] == gone.address);
            }
        }
        assert forall|k: int| 0 <= k < paid.len() implies {
            &&& (#[trigger] paid[k]).from == pool
            &&& paid[k].to == recipients[k]
            &&& paid[k].authority == authority
        } by {
            if k > 0 {
                assert(paid[k] == more[k - 1]);
                assert(later[k - 1] == recipients[k]);
            }
        }
        assert forall|k: int| 0 <= k < paid.len() implies #[trigger] paid_off(
            players,
            holdings,
            rest,
            recipients[k],
            paid[k].amount,
        ) by {
            if k == 0 {
                assert(pays_off(players, holdings, rest, recipients[0], paid[0].amount, i));
            } else {
                assert(paid[k] == more[k - 1]);
                assert(later[k - 1] == recipients[k]);
                let recipient = later[k - 1];
                let amount = more[k - 1].amount;
                assert(paid_off(fewer, fewer_holdings, rest, recipient, amount));
                let f = choose|f: int|
                    pays_off(fewer, fewer_holdings, rest, recipient, amount, f);
                let f0 = if f < i { f } else { f + 1 };
                assert(players[f0] == fewer[f]);
                assert(holdings[f0] == fewer_holdings[f]);
                assert(pays_off(players, holdings, rest, recipients[k], paid[k].amount, f0));
            }
        }
        assert forall|w: int| 0 <= w < players.len() implies rest.contains(#[trigger] players[w])
            || exists|k: int|
            0 <= k < recipients.len() && holdings[w] == Some(#[trigger] recipients[k]) by {
            if w == i {
                assert(holdings[w] == Some(recipients[0]));
            } else {
                let f = if w < i { w } else { w - 1 };
                assert(fewer[f] == players[w]);
                assert(fewer_holdings[f] == holdings[w]);
                if !rest.contains(fewer[f]) {
                    let k = choose|k: int|
                        0 <= k < later.len() && fewer_holdings[f] == Some(#[trigger] later[k]);
                    assert(later[k] == recipients[k + 1]);
                }
            }
        }
    }
}

/// A vector with the items of `v`, to work on while `v` stays as it is.
fn copy_of<T: Copy>(v: &Vec<T>) -> (r: Vec<T>)
    ensures
        r@ == v@,
{
    let mut r: Vec<T> = Vec::with_capacity(v.len());
    let mut i: usize = 0;
    while i < v.len()
        invariant
            i <= v.len(),
            r@ == v@.take(i as int),
        decreases v.len() - i,
    {
        r.push(v[i]);
        assert(v@.take(i + 1) =~= v@.take(i as int).push(v@[i as int]));
        i += 1;
    }
    assert(v@.take(v.len() as int) =~= v@);
    r
}

/// The first seat whose holding account is `recipient`, if there is one.
fn find_holder(holdings: &Vec<Option<Pubkey>>, recipient: &Pubkey) -> (r: Option<usize>)
    ensures
        match r {
            Some(i) => is_first(holdings@, Some(*recipient), i as int),
            None => !holdings@.contains(Some(*recipient)),
        },
{
    let mut i: usize = 0;
    while i < holdings.len()
        invariant
            i <= holdings.len(),
            forall|j: int| 0 <= j < i ==> holdings@[j] != Some(*recipient),
        decreases holdings.len() - i,
    {
        let same = match holdings[i] {
            Some(account) => account == *recipient,
            None => false,
        };
        if same {
            return Some(i);
        }
        i += 1;
    }
    None
}

/// Settles a table of which the holding account of every seat is known.
///
/// `holdings` has one entry for each seat, in the order of the seats.
/// `remaining_accounts` has the accounts to pay out to. On success the ledger
/// has the seats that `settlement` names, and the transfers that it names are
/// returned, in the order of `remaining_accounts`, for the custody service to
/// make. A refused settlement changes nothing.
#[verifier::loop_isolation(false)]
pub fn settle_with_holdings(
    accounts: &mut SettleAccounts,
    remaining_accounts: &Vec<Pubkey>,
    holdings: &Vec<Option<Pubkey>>,
    data: SettleParams,
) -> (res: Result<Vec<Transfer>, PokerError>)
    requires
        old(accounts).game_account@.wf(),
        holdings.len() == old(accounts).game_account.players.len(),
    ensures
        final(accounts).game_account@.wf(),
        match res {
            Ok(transfers) => {
                &&& settlement(
                    old(accounts).game_account@,
                    old(accounts).payer,
                    data.settles@,
                    holdings@,
                    remaining_accounts@,
                    old(accounts).token_account.key,
                    old(accounts).pda_account,
                ) == Ok::<_, PokerError>((final(accounts).game_account.players@, transfers@))
                &&& final(accounts).game_account@ == old(accounts).game_account@.with_players(
                    final(accounts).game_account.players@,
                )
                &&& final(accounts).token_account == old(accounts).token_account
                &&& final(accounts).payer == old(accounts).payer
                &&& final(accounts).pda_account == old(accounts).pda_account
            },
            Err(e) => {
                &&& settlement(
                    old(accounts).game_account@,
                    old(accounts).payer,
                    data.settles@,
                    holdings@,
                    remaining_accounts@,
                    old(accounts).token_account.key,
                    old(accounts).pda_account,
                ) == Err::<(Seq<SeatedPlayer>, Seq<Transfer>), _>(e)
                &&& *final(accounts) == *old(accounts)
            },
        },
{
    if !(accounts.game_account.owner == accounts.payer) {
        return Err(PokerError::NotGameOwner);
    }
    if !(accounts.game_account.status == GameStatus::Active) {
        return Err(PokerError::GameNotActive);
    }
    let pool = accounts.token_account.key;
    let authority = accounts.pda_account;
    let ghost initial = accounts.game_account.players@;

    let mut players = copy_of(&accounts.game_account.players);
    let mut k: usize = 0;
    assert(data.settles@.skip(0) =~= data.settles@);
    while k < data.settles.len()
        invariant
            k <= data.settles.len(),
            addresses(players@) == addresses(initial),
            players@.len() == initial.len(),
            adjust(initial, data.settles@) == adjust(players@, data.settles@.skip(k as int)),
        decreases data.settles.len() - k,
    {
        let s = data.settles[k];
        let ghost rest = data.settles@.skip(k as int);
        assert(rest.first() == s);
        assert(rest.drop_first() =~= data.settles@.skip(k + 1));
        let i = match find_seat(&players, &s.addr) {
            Some(i) => i,
            None => {
                return Err(PokerError::NotAtTable);
            },
        };
        let seat = players[i];
        let changed = match s.op {
            SettleOp::Add(amount) => seat.balance.checked_add(amount),
            SettleOp::Sub(amount) => seat.balance.checked_sub(amount),
        };
        let balance = match changed {
            Some(balance) => balance,
            None => {
                return Err(PokerError::DepositTooLarge);
            },
        };
        let ghost before = players@;
        players.set(i, SeatedPlayer { address: seat.address, balance, add_on: seat.add_on });
        assert(addresses(players@) =~= addresses(before));
        k += 1;
    }
    let ghost adjusted = players@;
    assert(data.settles@.skip(data.settles.len() as int).len() == 0);

    let mut holdings = copy_of(holdings);
    let ghost holdings0 = holdings@;
    let mut transfers: Vec<Transfer> = Vec::new();
    let mut k: usize = 0;
    proof {
        assert(remaining_accounts@.skip(0) =~= remaining_accounts@);
        if let Ok((_, more)) = pay_out(adjusted, holdings0, remaining_accounts@, pool, authority) {
            assert(Seq::<Transfer>::empty() + more =~= more);
        }
    }
    while k < remaining_accounts.len()
        invariant
            k <= remaining_accounts.len(),
            players@.len() == holdings@.len(),
            players@.len() <= initial.len(),
            distinct_addresses(players@),
            after_paying(
                transfers@,
                pay_out(players@, holdings@, remaining_accounts@.skip(k as int), pool, authority),
            ) == pay_out(adjusted, holdings0, remaining_accounts@, pool, authority),
        decreases remaining_accounts.len() - k,
    {
        let recipient = remaining_accounts[k];
        let ghost rest = remaining_accounts@.skip(k as int);
        assert(rest.first() == recipient);
        assert(rest.drop_first() =~= remaining_accounts@.skip(k + 1));
        let i = match find_holder(&holdings, &recipient) {
            Some(i) => i,
            None => {
                return Err(PokerError::NotAtTable);
            },
        };
        proof {
            lemma_first_index(holdings@, Some(recipient), i as int);
        }
        let seat = players[i];
        let amount = match seat.balance.checked_add(seat.add_on) {
            Some(amount) => amount,
            None => {
                return Err(PokerError::DepositTooLarge);
            },
        };
        let order = Transfer { from: pool, to: recipient, authority, amount };
        proof {
            lemma_remove_keeps_distinct(players@, i as int);
            let inner = pay_out(
                players@.remove(i as int),
                holdings@.remove(i as int),
                rest.drop_first(),
                pool,
                authority,
            );
            assert(pay_out(players@, holdings@, rest, pool, authority) == after_paying(
                seq![order],
                inner,
            ));
            if let Ok((_, more)) = inner {
                assert(transfers@ + (seq![order] + more) =~= transfers@.push(order) + more);
            }
        }
        transfers.push(order);
        players.remove(i);
        holdings.remove(i);
        k += 1;
    }
    assert(remaining_accounts@.skip(remaining_accounts.len() as int).len() == 0);
    assert(transfers@ + Seq::<Transfer>::empty() =~= transfers@);
    accounts.game_account.players = players;
    Ok(transfers)
}

/// The holding account of every seat, in the order of the seats.
fn find_holding_accounts(players: &Vec<SeatedPlayer>, mint: &Pubkey) -> (r: Vec<Option<Pubkey>>)
    ensures
        r@ == holding_accounts(players@, *mint),
{
    let mut r: Vec<Option<Pubkey>> = Vec::with_capacity(players.len());
    let mut i: usize = 0;
    while i < players.len()
        invariant
            i <= players.len(),
            r@ == holding_accounts(players@.take(i as int), *mint),
        decreases players.len() - i,
    {
        let account = get_associated_token_address(&players[i].address, mint);
        r.push(account);
        assert(holding_accounts(players@.take(i + 1), *mint) =~= holding_accounts(
            players@.take(i as int),
            *mint,
        ).push(account));
        i += 1;
    }
    assert(players@.take(players.len() as int) =~= players@);
    r
}

/// Settles a table: applies the owner's adjustments, then pays out and
/// unseats the participants who leave.
///
/// `remaining_accounts` has the accounts to pay out to; each stands for the
/// participant whose holding account for the pool's unit of account it is. On
/// success the ledger has the seats that `settlement` names, and the
/// transfers that it names are returned, in the order of
/// `remaining_accounts`, for the custody service to make. A refused
/// settlement changes nothing.
pub fn settle(
    accounts: &mut SettleAccounts,
    remaining_accounts: &Vec<Pubkey>,
    data: SettleParams,
) -> (res: Result<Vec<Transfer>, PokerError>)
    requires
        old(accounts).game_account@.wf(),
    ensures
        final(accounts).game_account@.wf(),
        match res {
            Ok(transfers) => {
                &&& settlement(
                    old(accounts).game_account@,
                    old(accounts).payer,
                    data.settles@,
                    holding_accounts(
                        old(accounts).game_account.players@,
                        old(accounts).token_account.mint,
                    ),
                    remaining_accounts@,
                    old(accounts).token_account.key,
                    old(accounts).pda_account,
                ) == Ok::<_, PokerError>((final(accounts).game_account.players@, transfers@))
                &&& final(accounts).game_account@ == old(accounts).game_account@.with_players(
                    final(accounts).game_account.players@,
                )
                &&& final(accounts).token_account == old(accounts).token_account
                &&& final(accounts).payer == old(accounts).payer
                &&& final(accounts).pda_account == old(accounts).pda_account
            },
            Err(e) => {
                &&& settlement(
                    old(accounts).game_account@,
                    old(accounts).payer,
                    data.settles@,
                    holding_accounts(
                        old(accounts).game_account.players@,
                        old(accounts).token_account.mint,
                    ),
                    remaining_accounts@,
                    old(accounts).token_account.key,
                    old(accounts).pda_account,
                ) == Err::<(Seq<SeatedPlayer>, Seq<Transfer>), _>(e)
                &&& *final(accounts) == *old(accounts)
            },
        },
{
    let holdings = find_holding_accounts(&accounts.game_account.players, &accounts.token_account.mint);
    settle_with_holdings(accounts, remaining_accounts, &holdings, data)
}

} // verus!
