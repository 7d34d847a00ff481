//! Readings and the log that keeps them.
//!
//! The log is append-only.  Every appended reading gets an identifier larger
//! than all before it, and the newest readings are read back first.

use vstd::prelude::*;
use crate::clock::now_rfc3339;
use crate::telemetry::EspWeatherMessage;

verus! {

/// A reading that has not been recorded yet.
#[derive(Debug)]
pub struct NewWeatherMessage {
    /// When the reading was taken in, as an RFC 3339 string.
    pub timestamp: String,
    /// Degrees Celsius, as a single-precision bit pattern.
    pub temp: u32,
    /// Pascals, as a single-precision bit pattern.
    pub pressure: u32,
    /// Percent of relative humidity, as a single-precision bit pattern.
    pub humidity: u32,
}

/// A recorded reading.
#[derive(Debug)]
pub struct WeatherMessage {
    /// The identifier the log gave it.
    pub id: i32,
    pub timestamp: String,
    pub temp: u32,
    pub pressure: u32,
    pub humidity: u32,
}

/// Why the log refused a reading.
#[derive(Clone, Copy, Debug, PartialEq, Eq, Structural)]
pub enum StoreError {
    /// Nothing was written.
    WriteFailed,
}

/// The largest identifier the log can give.
pub const LAST_ID: i64 = 0x7FFF_FFFF;

/// The row that `reading` becomes under the identifier `id`.
pub open spec fn recorded_as(reading: NewWeatherMessage, id: i32) -> WeatherMessage {
    WeatherMessage {
        id,
        timestamp: reading.timestamp,
        temp: reading.temp,
        pressure: reading.pressure,
        humidity: reading.humidity,
    }
}

/// The newest `limit` rows of a log, the newest first.
pub open spec fn recent_of(rows: Seq<WeatherMessage>, limit: nat) -> Seq<WeatherMessage> {
    let count: nat = if limit < rows.len() {
        limit
    } else {
        rows.len()
    };
    Seq::new(count, |i: int| rows[rows.len() - 1 - i])
}

/// The identifiers grow along the rows, from one on and below `next`.
pub open spec fn ids_ascend(rows: Seq<WeatherMessage>, next: int) -> bool {
    &&& forall|i: int| 0 <= i < rows.len() ==> 1 <= #[trigger] rows[i].id < next
    &&& forall|i: int, j: int|
        0 <= i < j < rows.len() ==> #[trigger] rows[i].id < #[trigger] rows[j].id
}

/// The rows of a log after `readings` were appended to it one after the
/// other, the first of them under the identifier `next`.
pub open spec fn after_appends(
    rows: Seq<WeatherMessage>,
    next: int,
    readings: Seq<NewWeatherMessage>,
) -> Seq<WeatherMessage>
    decreases readings.len(),
{
    if readings.len() == 0 {
        rows
    } else {
        after_appends(rows, next, readings.drop_last()).push(
            recorded_as(readings.last(), (next + readings.len() - 1) as i32),
        )
    }
}

/// Appending keeps what was there and adds one row for each reading, in
/// order.
pub proof fn lemma_after_appends(
    rows: Seq<WeatherMessage>,
    next: int,
    readings: Seq<NewWeatherMessage>,
)
    ensures
        after_appends(rows, next, readings).len() == rows.len() + readings.len(),
        forall|i: int|
            0 <= i < rows.len() ==> #[trigger] after_appends(rows, next, readings)[i] == rows[i],
        forall|j: int|
            0 <= j < readings.len() ==> #[trigger] after_appends(rows, next, readings)[rows.len()
                + j] == recorded_as(readings[j], (next + j) as i32),
    decreases readings.len(),
{
    if readings.len() > 0 {
        lemma_after_appends(rows, next, readings.drop_last());
    }
}

/// Reading back after appending: of readings appended in order, the newest
/// `limit` come back, the last appended first, each under the identifier it
/// was given; never more than `limit` rows come back.
pub proof fn law_recent_after_appends(
    rows: Seq<WeatherMessage>,
    next: int,
    readings: Seq<NewWeatherMessage>,
    limit: nat,
)
    ensures
        recent_of(after_appends(rows, next, readings), limit).len() <= limit,
        forall|i: int|
            0 <= i < limit && i < readings.len() ==> #[trigger] recent_of(
                after_appends(rows, next, readings),
                limit,
            )[i] == recorded_as(
                readings[readings.len() - 1 - i],
                (next + readings.len() - 1 - i) as i32,
            ),
{
    lemma_after_appends(rows, next, readings);
    let all = after_appends(rows, next, readings);
    assert forall|i: int| 0 <= i < limit && i < readings.len() implies #[trigger] recent_of(
        all,
        limit,
    )[i] == recorded_as(
        readings[readings.len() - 1 - i],
        (next + readings.len() - 1 - i) as i32,
    ) by {
        let j: int = readings.len() - 1 - i;
        assert(all[rows.len() + j] == recorded_as(readings[j], (next + j) as i32));
    }
}

/// Appending keeps a log in order: where the identifiers of `rows` ascend
/// below `next` and an identifier is left for each reading, the identifiers
/// ascend after the appends too.
pub proof fn law_appends_keep_ids_ascending(
    rows: Seq<WeatherMessage>,
    next: int,
    readings: Seq<NewWeatherMessage>,
)
    requires
        ids_ascend(rows, next),
        1 <= next,
        next + readings.len() - 1 <= LAST_ID,
    ensures
        ids_ascend(after_appends(rows, next, readings), next + readings.len()),
{
    lemma_after_appends(rows, next, readings);
    let all = after_appends(rows, next, readings);
    assert forall|i: int| 0 <= i < all.len() implies 1 <= #[trigger] all[i].id < next
        + readings.len() by {
        if i >= rows.len() {
            let j: int = i - rows.len();
            assert(all[rows.len() + j] == recorded_as(readings[j], (next + j) as i32));
        }
    }
    assert forall|i: int, j: int| 0 <= i < j < all.len() implies #[trigger] all[i].id
        < #[trigger] all[j].id by {
        if i >= rows.len() {
            let a: int = i - rows.len();
            assert(all[rows.len() + a] == recorded_as(readings[a], (next + a) as i32));
        }
        if j >= rows.len() {
            let b: int = j - rows.len();
            assert(all[rows.len() + b] == recorded_as(readings[b], (next + b) as i32));
        }
    }
}

impl NewWeatherMessage {
    /// A reading taken in at the time `timestamp`.
    pub fn stamped(timestamp: String, tmp: u32, press: u32, hum: u32) -> (reading:
        NewWeatherMessage)
        ensures
            reading == (NewWeatherMessage {
                timestamp,
                temp: tmp,
                pressure: press,
                humidity: hum,
            }),
    {
        NewWeatherMessage { timestamp, temp: tmp, pressure: press, humidity: hum }
    }

    /// A reading taken in now.
    pub fn new(tmp: u32, press: u32, hum: u32) -> (reading: NewWeatherMessage)
        ensures
            reading.temp == tmp,
            reading.pressure == press,
            reading.humidity == hum,
    {
        NewWeatherMessage::stamped(now_rfc3339(), tmp, press, hum)
    }

    /// The reading that a telemetry message becomes, taken in now.
    pub fn from_esp_weather_message(msg: &EspWeatherMessage) -> (reading: NewWeatherMessage)
        ensures
            reading.temp == msg.temp,
            reading.pressure == msg.pressure,
            reading.humidity == msg.humidity,
    {
        NewWeatherMessage::new(msg.temp, msg.pressure, msg.humidity)
    }

    /// Appends this reading to `store` and returns the identifier that the
    /// log gave it.
    pub fn save_to_db(&self, store: &mut ReadingStore) -> (written: Result<i32, StoreError>)
        requires
            old(store).wf(),
        ensures
            final(store).wf(),
            old(store).has_room() ==> written == Ok::<i32, StoreError>(
                old(store).next_id() as i32,
            ) && final(store)@ == old(store)@.push(
                recorded_as(*self, old(store).next_id() as i32),
            ) && final(store).next_id() == old(store).next_id() + 1,
            !old(store).has_room() ==> written == Err::<i32, StoreError>(StoreError::WriteFailed)
                && final(store)@ == old(store)@ && final(store).next_id() == old(store).next_id(),
    {
        store.append(self.duplicate())
    }
}

impl EspWeatherMessage {
    /// The reading that this message becomes, taken in now.
    pub fn to_new_weather_message(&self) -> (reading: NewWeatherMessage)
        ensures
            reading.temp == self.temp,
            reading.pressure == self.pressure,
            reading.humidity == self.humidity,
    {
        NewWeatherMessage::new(self.temp, self.pressure, self.humidity)
    }
}

impl NewWeatherMessage {
    /// A copy of this reading.
    pub fn duplicate(&self) -> (copy: NewWeatherMessage)
        ensures
            copy == *self,
    {
        NewWeatherMessage {
            timestamp: self.timestamp.clone(),
            temp: self.temp,
            pressure: self.pressure,
            humidity: self.humidity,
        }
    }
}

impl WeatherMessage {
    /// A copy of this row.
    pub fn duplicate(&self) -> (copy: WeatherMessage)
        ensures
            copy == *self,
    {
        WeatherMessage {
            id: self.id,
            timestamp: self.timestamp.clone(),
            temp: self.temp,
            pressure: self.pressure,
            humidity: self.humidity,
        }
    }
}

/// The append-only log of readings.
pub struct ReadingStore {
    rows: Vec<WeatherMessage>,
    next: i64,
}

impl View for ReadingStore {
    type V = Seq<WeatherMessage>;

    /// The rows in the order in which they were appended.
    closed spec fn view(&self) -> Seq<WeatherMessage> {
        self.rows@
    }
}

impl ReadingStore {
    /// The identifier that the next appended reading gets.
    pub closed spec fn next_id(&self) -> int {
        self.next as int
    }

    /// Whether an identifier is left for another reading.
    pub open spec fn has_room(&self) -> bool {
        self.next_id() <= LAST_ID
    }

    /// The identifiers of the rows grow from one on and stay below the next
    /// one to be given.
    pub closed spec fn wf(&self) -> bool {
        &&& 1 <= self.next <= LAST_ID + 1
        &&& ids_ascend(self.rows@, self.next as int)
    }

    /// In a well-formed log no two rows share an identifier, and a later row
    /// has the larger one.
    pub proof fn lemma_ids_ascend(&self)
        requires
            self.wf(),
        ensures
            ids_ascend(self@, self.next_id()),
            1 <= self.next_id() <= LAST_ID + 1,
    {
    }

    /// An empty log.
    pub fn new() -> (store: ReadingStore)
        ensures
            store.wf(),
            store@ == Seq::<WeatherMessage>::empty(),
            store.next_id() == 1,
    {
        ReadingStore { rows: Vec::new(), next: 1 }
    }

    /// The number of rows.
    pub fn len(&self) -> (n: usize)
        ensures
            n == self@.len(),
    {
        self.rows.len()
    }

    /// Takes back a row that was recorded earlier and kept elsewhere.  It is
    /// kept where its identifier is not below the next one to be given; the
    /// log then continues after its identifier.  Otherwise nothing changes.
    pub fn restore(&mut self, row: WeatherMessage) -> (kept: bool)
        requires
            old(self).wf(),
        ensures
            final(self).wf(),
            kept <==> old(self).next_id() <= row.id,
            kept ==> final(self)@ == old(self)@.push(row) && final(self).next_id() == row.id + 1,
            !kept ==> final(self)@ == old(self)@ && final(self).next_id() == old(self).next_id(),
    {
        if (row.id as i64) < self.next {
            return false;
        }
        self.next = row.id as i64 + 1;
        self.rows.push(row);
        true
    }

    /// Records `reading` under the next identifier and returns it.  When no
    /// identifier is left the log stays as it is.
    pub fn append(&mut self, reading: NewWeatherMessage) -> (id: Result<i32, StoreError>)
        requires
            old(self).wf(),
        ensures
            final(self).wf(),
            old(self).has_room() ==> id == Ok::<i32, StoreError>(old(self).next_id() as i32)
                && final(self)@ == old(self)@.push(
                recorded_as(reading, old(self).next_id() as i32),
            ) && final(self).next_id() == old(self).next_id() + 1,
            !old(self).has_room() ==> id == Err::<i32, StoreError>(StoreError::WriteFailed)
                && final(self)@ == old(self)@ && final(self).next_id() == old(self).next_id(),
    {
        if self.next > LAST_ID {
            return Err(StoreError::WriteFailed);
        }
        let id: i32 = self.next as i32;
        self.rows.push(
            WeatherMessage {
                id,
                timestamp: reading.timestamp,
                temp: reading.temp,
                pressure: reading.pressure,
                humidity: reading.humidity,
            },
        );
        self.next = self.next + 1;
        Ok(id)
    }

    /// The newest `limit` rows, the newest first.
    pub fn recent(&self, limit: usize) -> (rows: Vec<WeatherMessage>)
        ensures
            rows@ == recent_of(self@, limit as nat),
    {
        let total: usize = self.rows.len();
        let count: usize = if limit < total {
            limit
        } else {
            total
        };
        let mut rows: Vec<WeatherMessage> = Vec::new();
        let mut i: usize = 0;
        while i < count
            invariant
                i <= count <= total,
                total == self.rows@.len(),
                rows@.len() == i,
                forall|k: int| 0 <= k < i ==> rows@[k] == self.rows@[total - 1 - k],
            decreases count - i,
        {
            rows.push(self.rows[total - 1 - i].duplicate());
            i = i + 1;
        }
        assert(rows@ =~= recent_of(self@, limit as nat));
        rows
    }
}

/// Every row of the log, the newest first.
pub fn get_all_weather_messages(store: &ReadingStore) -> (rows: Vec<WeatherMessage>)
    ensures
        rows@ == recent_of(store@, store@.len()),
{
    store.recent(store.len())
}

/// The window of rows that a median over the last `n_days` days is taken
/// from: the newest `limit` rows, the newest first, and every row where
/// `limit` is negative.  The number of days does not narrow the window.
pub fn median_weather(n_days: usize, limit: i64, store: &ReadingStore) -> (rows: Vec<
    WeatherMessage,
>)
    ensures
        rows@ == recent_of(
            store@,
            if 0 <= limit {
                limit as nat
            } else {
                store@.len()
            },
        ),
{
    let total: usize = store.len();
    if limit < 0 || limit as u64 >= total as u64 {
        store.recent(total)
    } else {
        store.recent(limit as usize)
    }
}

} // verus!
