//! The outbox table: the durable record of externally notifiable
//! events, written inside the same transaction as the state change
//! that raised them and later re-published by an external reconciler.

use vstd::prelude::*;

use crate::database::{DbV, Executor};
use crate::errors::ApplicationError;
use crate::events::{BoardCreated, BoardCreatedV, BoardEvent, BoardEventV};
use crate::json::{decode_created, json_created};
use crate::support::generate_uuid;

verus! {

/// Mathematical value of an outbox row.
#[verifier::ext_equal]
pub ghost struct OutboxV {
    pub id: Seq<char>,
    pub aggregate_id: Seq<char>,
    pub topic: Seq<char>,
    pub state: Seq<char>,
    pub processed: bool,
    pub create_dt: i64,
}

pub struct Outbox {
    pub id: String,
    pub aggregate_id: String,
    pub topic: String,
    pub state: String,
    pub processed: bool,
    pub create_dt: i64,
}

impl View for Outbox {
    type V = OutboxV;

    open spec fn view(&self) -> OutboxV {
        OutboxV {
            id: self.id@,
            aggregate_id: self.aggregate_id@,
            topic: self.topic@,
            state: self.state@,
            processed: self.processed,
            create_dt: self.create_dt,
        }
    }
}

/// The rows can be inserted: their ids collide neither with each other
/// nor with the rows already in the table.
pub open spec fn outbox_rows_insertable(rows: Seq<OutboxV>, existing: Seq<OutboxV>) -> bool {
    (forall|i: int, j: int| 0 <= i < j < rows.len() ==> rows[i].id != rows[j].id) && (forall|
        i: int,
        k: int,
    |
        0 <= i < rows.len() && 0 <= k < existing.len() ==> rows[i].id != existing[k].id)
}

impl Outbox {
    /// A fresh, unprocessed row with a random 36-character id.
    pub fn new(aggregate_id: String, topic: String, state: String) -> (r: Outbox)
        ensures
            r@.id.len() == 36,
            r@.aggregate_id == aggregate_id@,
            r@.topic == topic@,
            r@.state == state@,
            r@.processed == false,
            r@.create_dt == 0,
    {
        Outbox {
            id: generate_uuid(),
            aggregate_id,
            topic,
            state,
            processed: false,
            create_dt: 0,
        }
    }

    /// Value copy of the row; `String` fields are cloned.
    pub fn duplicate(&self) -> (r: Outbox)
        ensures
            r@ == self@,
    {
        Outbox {
            id: self.id.clone(),
            aggregate_id: self.aggregate_id.clone(),
            topic: self.topic.clone(),
            state: self.state.clone(),
            processed: self.processed,
            create_dt: self.create_dt,
        }
    }

    /// Marks the in-memory row processed.
    pub fn tag_processed(&mut self)
        ensures
            final(self)@ == (OutboxV { processed: true, ..old(self)@ }),
    {
        self.processed = true;
        proof {
            assert(final(self)@ =~= OutboxV { processed: true, ..old(self)@ });
        }
    }

    /// Turns the row back into the concrete event its topic names.
    /// Only `BoardCreated` crosses the outbox, so any other topic is a
    /// routing miss, and a payload the encoder could not have produced
    /// is a deserialization failure.
    pub fn convert_event(&self) -> (r: Result<BoardEvent, ApplicationError>)
        ensures
            r matches Ok(e) ==> self@.topic == "BoardCreated"@ && (e@ matches
            BoardEventV::Created(v) && self@.state == json_created(v)),
            self@.topic == "BoardCreated"@ && (exists|v: BoardCreatedV|
                self@.state == json_created(v)) ==> r is Ok,
            self@.topic != "BoardCreated"@ ==> (r matches Err(e) && e is EventNotFound),
            self@.topic == "BoardCreated"@ && (r matches Err(e) && !(e is DeserializationError))
                ==> false,
            self@.topic == "BoardCreated"@ && r is Err ==> !(exists|v: BoardCreatedV|
                self@.state == json_created(v)),
    {
        proof {
            reveal_strlit("BoardCreated");
        }
        if !self.topic.eq(&String::from_str("BoardCreated")) {
            return Err(ApplicationError::EventNotFound);
        }
        match decode_created(self.state.as_str()) {
            Ok(e) => Ok(BoardEvent::Created(e)),
            Err(e) => Err(e),
        }
    }

    /// Inserts the rows into the open transaction's outbox table, all
    /// or nothing: a duplicate id is the driver's key-violation error.
    #[verifier::loop_isolation(false)]
    pub fn add(executor: &mut Executor, outboxes: Vec<Outbox>) -> (r: Result<
        (),
        ApplicationError,
    >)
        ensures
            match r {
                Ok(()) => old(executor)@.transaction matches Some(d) && outbox_rows_insertable(
                    outboxes@.map_values(|o: Outbox| o@),
                    d.outbox,
                ) && final(executor)@.transaction == Some(
                    (DbV { outbox: d.outbox + outboxes@.map_values(|o: Outbox| o@), ..d }),
                ) && final(executor)@.pool == old(executor)@.pool,
                Err(e) => final(executor)@ == old(executor)@ && (
                (e is TransactionError && old(executor)@.transaction is None) || (
                e is DatabaseConnectionError && (old(executor)@.transaction matches Some(d)
                    && !outbox_rows_insertable(outboxes@.map_values(|o: Outbox| o@), d.outbox)))),
            },
    {
        let ghost rows = outboxes@.map_values(|o: Outbox| o@);
        let mut taken: Option<crate::database::Db> = None;
        core::mem::swap(&mut executor.transaction, &mut taken);
        let mut d = match taken {
            Some(d) => d,
            None => {
                proof {
                    assert(final(executor)@ =~= old(executor)@);
                }
                return Err(ApplicationError::TransactionError);
            },
        };
        let ghost d0 = d@;
        proof {
            assert(old(executor)@.transaction == Some(d0));
        }

        // Key check first, so that a collision leaves the transaction
        // untouched.
        let n = outboxes.len();
        let mut i: usize = 0;
        while i < n
            invariant
                i <= n,
                n == outboxes@.len(),
                rows == outboxes@.map_values(|o: Outbox| o@),
                d@ == d0,
                executor@.pool == old(executor)@.pool,
                executor.transaction is None,
                forall|a: int, b: int| 0 <= a < b < i ==> rows[a].id != rows[b].id,
                forall|a: int, k: int|
                    0 <= a < i && 0 <= k < d0.outbox.len() ==> rows[a].id != d0.outbox[k].id,
            decreases n - i,
        {
            let mut k: usize = 0;
            let m = d.outbox.len();
            while k < m
                invariant
                    k <= m,
                    i < n,
                    n == outboxes@.len(),
                    rows == outboxes@.map_values(|o: Outbox| o@),
                    d@ == d0,
                    executor@.pool == old(executor)@.pool,
                    executor.transaction is None,
                    m == d.outbox@.len(),
                    forall|t: int| 0 <= t < k ==> rows[i as int].id != d0.outbox[t].id,
                decreases m - k,
            {
                if outboxes[i].id.eq(&d.outbox[k].id) {
                    proof {
                        assert(rows[i as int] == outboxes@[i as int]@);
                        assert(d0.outbox[k as int] == d.outbox@[k as int]@);
                        assert(rows[i as int].id == d0.outbox[k as int].id);
                        assert(!outbox_rows_insertable(rows, d0.outbox));
                    }
                    executor.transaction = Some(d);
                    proof {
                        assert(executor@ =~~= old(executor)@);
                    }
                    return Err(
                        ApplicationError::DatabaseConnectionError(
                            "duplicate key value in service_outbox".to_owned(),
                        ),
                    );
                }
                k = k + 1;
            }
            let mut j: usize = 0;
            while j < i
                invariant
                    j <= i < n,
                    n == outboxes@.len(),
                    rows == outboxes@.map_values(|o: Outbox| o@),
                    d@ == d0,
                    executor@.pool == old(executor)@.pool,
                    executor.transaction is None,
                    forall|t: int| 0 <= t < j ==> rows[i as int].id != rows[t].id,
                decreases i - j,
            {
                if outboxes[i].id.eq(&outboxes[j].id) {
                    proof {
                        assert(rows[i as int] == outboxes@[i as int]@);
                        assert(rows[j as int] == outboxes@[j as int]@);
                        assert(rows[j as int].id == rows[i as int].id);
                        assert(!outbox_rows_insertable(rows, d0.outbox));
                    }
                    executor.transaction = Some(d);
                    proof {
                        assert(executor@ =~~= old(executor)@);
                    }
                    return Err(
                        ApplicationError::DatabaseConnectionError(
                            "duplicate key value in service_outbox".to_owned(),
                        ),
                    );
                }
                j = j + 1;
            }
            i = i + 1;
        }

        let mut t: usize = 0;
        while t < n
            invariant
                t <= n,
                n == outboxes@.len(),
                rows == outboxes@.map_values(|o: Outbox| o@),
                executor@.pool == old(executor)@.pool,
                executor.transaction is None,
                d@.boards == d0.boards,
                d@.comments == d0.comments,
                d@.outbox == d0.outbox + rows.take(t as int),
            decreases n - t,
        {
            let row = outboxes[t].duplicate();
            let ghost pre = d.outbox@;
            proof {
                assert(rows[t as int] == outboxes@[t as int]@);
                assert(row@ == rows[t as int]);
                assert(pre.map_values(|o: Outbox| o@) == d0.outbox + rows.take(t as int));
            }
            d.outbox.push(row);
            proof {
                assert(d.outbox@ == pre.push(row));
                assert(d@.outbox =~= pre.map_values(|o: Outbox| o@).push(row@));
                assert(d@.outbox =~= d0.outbox + rows.take(t as int + 1));
            }
            t = t + 1;
        }
        executor.transaction = Some(d);
        proof {
            assert(rows.take(n as int) =~= rows);
            assert(outbox_rows_insertable(rows, d0.outbox));
            assert(final(executor)@.transaction == Some(DbV { outbox: d0.outbox + rows, ..d0 }));
        }
        Ok(())
    }

    /// Reads the unprocessed rows of the committed table.
    #[verifier::loop_isolation(false)]
    pub fn get(executor: &Executor) -> (r: Result<Vec<Outbox>, ApplicationError>)
        ensures
            r matches Ok(rows) && rows@.map_values(|o: Outbox| o@)
                == executor@.pool.outbox.filter(|o: OutboxV| !o.processed),
    {
        let ghost all = executor@.pool.outbox;
        let ghost pred = |o: OutboxV| !o.processed;
        let mut rows: Vec<Outbox> = Vec::new();
        let n = executor.pool.outbox.len();
        let mut i: usize = 0;
        proof {
            reveal(Seq::filter);
            assert(all.take(0) =~= Seq::<OutboxV>::empty());
            assert(rows@.map_values(|o: Outbox| o@) =~= all.take(0).filter(pred));
        }
        while i < n
            invariant
                i <= n,
                n == executor.pool.outbox@.len(),
                all == executor@.pool.outbox,
                pred == (|o: OutboxV| !o.processed),
                rows@.map_values(|o: Outbox| o@) == all.take(i as int).filter(pred),
            decreases n - i,
        {
            let ghost before = rows@.map_values(|o: Outbox| o@);
            if !executor.pool.outbox[i].processed {
                rows.push(executor.pool.outbox[i].duplicate());
                proof {
                    assert(rows@.map_values(|o: Outbox| o@) =~= before.push(all[i as int]));
                }
            }
            proof {
                reveal(Seq::filter);
                assert(all.take(i as int + 1).drop_last() =~= all.take(i as int));
                assert(all.take(i as int + 1).last() == all[i as int]);
                assert(rows@.map_values(|o: Outbox| o@) =~= all.take(i as int + 1).filter(pred));
            }
            i = i + 1;
        }
        proof {
            assert(all.take(n as int) =~= all);
        }
        Ok(rows)
    }

    /// Marks this row processed in the open transaction's table.
    #[verifier::loop_isolation(false)]
    pub fn update(&self, executor: &mut Executor) -> (r: Result<(), ApplicationError>)
        ensures
            match r {
                Ok(()) => old(executor)@.transaction matches Some(d)
                    && final(executor)@.transaction == Some(
                    (DbV {
                        outbox: d.outbox.map_values(
                            |o: OutboxV|
                                if o.id == self@.id {
                                    OutboxV { processed: true, ..o }
                                } else {
                                    o
                                },
                        ),
                        ..d
                    }),
                ) && final(executor)@.pool == old(executor)@.pool,
                Err(e) => e is TransactionError && old(executor)@.transaction is None
                    && final(executor)@ == old(executor)@,
            },
    {
        let ghost marked = |o: OutboxV|
            if o.id == self@.id {
                OutboxV { processed: true, ..o }
            } else {
                o
            };
        let mut taken: Option<crate::database::Db> = None;
        core::mem::swap(&mut executor.transaction, &mut taken);
        let mut d = match taken {
            Some(d) => d,
            None => {
                proof {
                    assert(final(executor)@ =~= old(executor)@);
                }
                return Err(ApplicationError::TransactionError);
            },
        };
        let ghost d0 = d@;
        let n = d.outbox.len();
        let mut i: usize = 0;
        while i < n
            invariant
                i <= n,
                n == d.outbox@.len(),
                d@.boards == d0.boards,
                d@.comments == d0.comments,
                d@.outbox.len() == d0.outbox.len(),
                forall|k: int|
                    0 <= k < i ==> d@.outbox[k] == (if d0.outbox[k].id == self@.id {
                        (OutboxV { processed: true, ..d0.outbox[k] })
                    } else {
                        d0.outbox[k]
                    }),
                forall|k: int| i <= k < n ==> d@.outbox[k] == d0.outbox[k],
            decreases n - i,
        {
            proof {
                assert(d@.outbox[i as int] == d.outbox@[i as int]@);
                assert(d@.outbox[i as int] == d0.outbox[i as int]);
            }
            if d.outbox[i].id.eq(&self.id) {
                let mut row = d.outbox[i].duplicate();
                row.processed = true;
                proof {
                    assert(row@ =~= OutboxV { processed: true, ..d0.outbox[i as int] });
                }
                let ghost pre = d.outbox@;
                d.outbox[i] = row;
                proof {
                    assert(d.outbox@ == pre.update(i as int, row));
                    assert(d@.outbox[i as int] == row@);
                    assert(forall|k: int|
                        0 <= k < n && k != i ==> d@.outbox[k] == pre.map_values(
                            |o: Outbox| o@,
                        )[k]);
                }
            } else {
                proof {
                    assert(d0.outbox[i as int].id != self@.id);
                }
            }
            i = i + 1;
        }
        executor.transaction = Some(d);
        proof {
            assert(final(executor)@.transaction->Some_0.outbox =~= d0.outbox.map_values(marked));
            assert(final(executor)@.transaction == Some(
                DbV { outbox: d0.outbox.map_values(marked), ..d0 },
            ));
        }
        Ok(())
    }
}

} // verus!
