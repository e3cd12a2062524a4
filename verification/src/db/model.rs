//! Row shapes of the reading store and the conversions into them.
use vstd::prelude::*;
use crate::relay_server::PublisherMessage;

verus! {

/// A reading as inserted into the store.
#[derive(Debug)]
pub struct NewReading {
    pub publisher_id: i64,
    pub eco2: i32,
    pub evtoc: i32,
    pub read_time: i64,
    pub start_time: i64,
    pub increment: String,
}

/// A stored reading, as the store returns it.
#[derive(Debug)]
pub struct DbReading {
    pub id: i32,
    pub publisher_id: i64,
    pub eco2: i32,
    pub evtoc: i32,
    pub read_time: i64,
    pub start_time: i64,
    pub increment: String,
}

/// A query for the latest stored readings: at most `limit` of them, and
/// only those strictly before `before` when it is given.
#[derive(Clone, Debug)]
pub struct GetReadings {
    pub pub_id: u64,
    pub before: Option<u64>,
    pub limit: i64,
}

impl NewReading {
    /// The row to insert for a published reading. The sensor values always
    /// fit their columns; the identity and timestamps are stored exactly
    /// whenever they fit a signed column, which every realistic value does.
    pub fn from_message(msg: PublisherMessage) -> (r: NewReading)
        ensures
            r.eco2 == msg.msg.eco2 as i32,
            r.evtoc == msg.msg.evtoc as i32,
            r.increment == msg.msg.increment,
            msg.pub_id <= i64::MAX as u64 ==> r.publisher_id == msg.pub_id as i64,
            msg.msg.read_time <= i64::MAX as u64 ==> r.read_time == msg.msg.read_time as i64,
            msg.msg.start_time <= i64::MAX as u64 ==> r.start_time == msg.msg.start_time as i64,
    {
        let rd = msg.msg;
        NewReading {
            publisher_id: #[verifier::truncate] (msg.pub_id as i64),
            eco2: rd.eco2 as i32,
            evtoc: rd.evtoc as i32,
            read_time: #[verifier::truncate] (rd.read_time as i64),
            start_time: #[verifier::truncate] (rd.start_time as i64),
            increment: rd.increment,
        }
    }
}

/// The store answers queries newest first; the query surface presents them
/// oldest first. Reverse the store's answer.
pub fn ascending_of(v: Vec<DbReading>) -> (r: Vec<DbReading>)
    ensures
        r@.len() == v@.len(),
        forall|i: int| 0 <= i < v@.len() ==> r@[i] == v@[v@.len() - 1 - i],
{
    let ghost orig = v@;
    let mut src = v;
    let mut r: Vec<DbReading> = Vec::new();
    while src.len() > 0
        invariant
            src@ == orig.subrange(0, src@.len() as int),
            r@.len() + src@.len() == orig.len(),
            forall|i: int| 0 <= i < r@.len() ==> r@[i] == orig[orig.len() - 1 - i],
        decreases src.len(),
    {
        match src.pop() {
            Some(x) => {
                proof {
                    assert(x == orig[src@.len() as int]);
                    assert(src@ =~= orig.subrange(0, src@.len() as int));
                }
                r.push(x);
            },
            None => {
                proof {
                    assert(false);
                }
            },
        }
    }
    r
}

} // verus!
