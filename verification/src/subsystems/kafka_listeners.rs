//! Taking in messages of the broker.
//!
//! For each topic a listener receives messages in the order of their
//! offsets. It remembers, across restarts, the last offset it has dealt
//! with, and passes over every message at or below the offset it found
//! when it started.

use vstd::prelude::*;

use crate::domain::cart::history::consistent;
use crate::domain::cart::{
    uuid_version_number, ChangeInventoryCommand, ChangePriceCommand, InventoryChangedMessage,
    InventoryChangedTranslator, PriceChangeTranslator, PriceChangedMessage, ProductId,
};
use crate::domain::decision::{Command, DecisionMaker};
use crate::domain::event_store::{appended, events_of, last_id, EventStore, PersistedView};
use crate::domain::helpers::rows::{first_where, lemma_first_where, lemma_first_where_is};
use crate::infra::KafkaSettings;

verus! {

/// What handles the messages of a topic: it turns each message into a
/// command and makes the command. A handler deals with every failure
/// itself; a message that cannot be made into a command is dropped.
pub trait KafkaMessageHandler {
    /// The messages of the topic.
    type Message;

    /// The name of the topic.
    spec fn topic_name(&self) -> Seq<char>;

    /// The name of the consumer group.
    spec fn group_name(&self) -> Seq<char>;

    /// The topic.
    fn topic(&self) -> (topic: &'static str)
        ensures
            topic@ == self.topic_name(),
    ;

    /// The consumer group.
    fn group(&self) -> (group: &'static str)
        ensures
            group@ == self.group_name(),
    ;

    /// Whether `after` is the log when the handler has taken in a message
    /// on the log `before`.
    spec fn takes_in(
        &self,
        message: Self::Message,
        before: Seq<PersistedView>,
        after: Seq<PersistedView>,
    ) -> bool;

    /// Takes in the message at an offset.
    fn handle_message(
        &self,
        decider: &DecisionMaker,
        store: &mut EventStore,
        offset: i64,
        message: Self::Message,
    )
        requires
            old(store).wf(),
        ensures
            final(store).wf(),
            consistent(events_of(old(store)@)) ==> consistent(events_of(final(store)@)),
            self.takes_in(message, old(store)@, final(store)@),
    ;
}

impl KafkaMessageHandler for PriceChangeTranslator {
    type Message = PriceChangedMessage;

    open spec fn topic_name(&self) -> Seq<char> {
        "price-changes"@
    }

    /// A message whose product is named by a version 7 UUID has the change
    /// of the price appended, where the log has an id left; any other
    /// message leaves the log as it is.
    open spec fn takes_in(
        &self,
        message: PriceChangedMessage,
        before: Seq<PersistedView>,
        after: Seq<PersistedView>,
    ) -> bool {
        if uuid_version_number(message.product_uuid) == 7 && last_id(before) + 1 <= i64::MAX {
            after == appended(
                before,
                (ChangePriceCommand {
                    product_id: ProductId(message.product_uuid),
                    old_price: message.old_price,
                    new_price: message.new_price,
                }).decided(),
            )
        } else {
            after == before
        }
    }

    open spec fn group_name(&self) -> Seq<char> {
        "cart"@
    }

    fn topic(&self) -> (topic: &'static str) {
        "price-changes"
    }

    fn group(&self) -> (group: &'static str) {
        "cart"
    }

    fn handle_message(
        &self,
        decider: &DecisionMaker,
        store: &mut EventStore,
        offset: i64,
        message: PriceChangedMessage,
    )
        ensures
            uuid_version_number(message.product_uuid) != 7 ==> final(store)@ == old(store)@,
            uuid_version_number(message.product_uuid) == 7 && old(store).has_room(1)
                ==> final(store)@ == appended(
                old(store)@,
                (ChangePriceCommand {
                    product_id: ProductId(message.product_uuid),
                    old_price: message.old_price,
                    new_price: message.new_price,
                }).decided(),
            ),
            !old(store).has_room(1) ==> final(store)@ == old(store)@,
    {
        match self.translate(message) {
            Ok(decision) => {
                assert(decision.decided().len() == 1);
                let _ = decider.make(store, Command::ChangePrice(decision));
            },
            Err(_) => {},
        }
    }
}

impl KafkaMessageHandler for InventoryChangedTranslator {
    type Message = InventoryChangedMessage;

    open spec fn topic_name(&self) -> Seq<char> {
        "inventories"@
    }

    /// A message whose product is named by a version 7 UUID has the
    /// inventory appended, where the log has an id left; any other message
    /// leaves the log as it is.
    open spec fn takes_in(
        &self,
        message: InventoryChangedMessage,
        before: Seq<PersistedView>,
        after: Seq<PersistedView>,
    ) -> bool {
        if uuid_version_number(message.product_uuid) == 7 && last_id(before) + 1 <= i64::MAX {
            after == appended(
                before,
                (ChangeInventoryCommand {
                    product_id: ProductId(message.product_uuid),
                    inventory: message.inventory,
                }).decided(),
            )
        } else {
            after == before
        }
    }

    open spec fn group_name(&self) -> Seq<char> {
        "cart"@
    }

    fn topic(&self) -> (topic: &'static str) {
        "inventories"
    }

    fn group(&self) -> (group: &'static str) {
        "cart"
    }

    fn handle_message(
        &self,
        decider: &DecisionMaker,
        store: &mut EventStore,
        offset: i64,
        message: InventoryChangedMessage,
    )
        ensures
            uuid_version_number(message.product_uuid) != 7 ==> final(store)@ == old(store)@,
            uuid_version_number(message.product_uuid) == 7 && old(store).has_room(1)
                ==> final(store)@ == appended(
                old(store)@,
                (ChangeInventoryCommand {
                    product_id: ProductId(message.product_uuid),
                    inventory: message.inventory,
                }).decided(),
            ),
            !old(store).has_room(1) ==> final(store)@ == old(store)@,
    {
        match self.translate(message) {
            Ok(decision) => {
                assert(decision.decided().len() == 1);
                let _ = decider.make(store, Command::ChangeInventory(decision));
            },
            Err(_) => {},
        }
    }
}

/// The last offset dealt with, for one topic.
#[derive(Clone, Debug, PartialEq, Eq)]
pub struct TopicOffset {
    pub topic: String,
    pub last_offset: i64,
}

/// The model of the last offset dealt with, for one topic.
pub ghost struct TopicOffsetView {
    pub topic: Seq<char>,
    pub last_offset: i64,
}

impl View for TopicOffset {
    type V = TopicOffsetView;

    open spec fn view(&self) -> TopicOffsetView {
        TopicOffsetView { topic: self.topic@, last_offset: self.last_offset }
    }
}

/// The last offset recorded for the topic, if one was.
pub open spec fn offset_of(rows: Seq<TopicOffsetView>, topic: Seq<char>) -> Option<i64> {
    match first_where(rows, |r: TopicOffsetView| r.topic == topic) {
        Some(i) => Some(rows[i].last_offset),
        None => None,
    }
}

/// The rows after an offset of the topic was dealt with: the greatest
/// offset seen so far is kept.
pub open spec fn recorded(rows: Seq<TopicOffsetView>, topic: Seq<char>, offset: i64) -> Seq<
    TopicOffsetView,
> {
    match first_where(rows, |r: TopicOffsetView| r.topic == topic) {
        Some(i) => if rows[i].last_offset < offset {
            rows.update(i, TopicOffsetView { topic, last_offset: offset })
        } else {
            rows
        },
        None => rows.push(TopicOffsetView { topic, last_offset: offset }),
    }
}

/// After an offset of a topic was recorded, the offset recorded for the
/// topic is the greater of the offset and what was recorded before.
pub proof fn lemma_recorded_is_max(rows: Seq<TopicOffsetView>, topic: Seq<char>, offset: i64)
    ensures
        offset_of(recorded(rows, topic, offset), topic) == Some(
            match offset_of(rows, topic) {
                Some(before) => if before < offset {
                    offset
                } else {
                    before
                },
                None => offset,
            },
        ),
{
    let same = |r: TopicOffsetView| r.topic == topic;
    let after = recorded(rows, topic, offset);
    lemma_first_where(rows, same);
    match first_where(rows, same) {
        Some(i) => {
            if rows[i].last_offset < offset {
                assert(forall|j: int| 0 <= j < i ==> after[j] == rows[j]);
                lemma_first_where_is(after, same, i);
            }
        },
        None => {
            assert(forall|j: int| 0 <= j < rows.len() ==> after[j] == rows[j]);
            lemma_first_where_is(after, same, rows.len() as int);
        },
    }
}

/// The models of a list of rows, in order.
pub open spec fn offset_views(rows: Seq<TopicOffset>) -> Seq<TopicOffsetView> {
    rows.map_values(|row: TopicOffset| row@)
}

/// The last offsets dealt with, by topic.
#[derive(Debug)]
pub struct TopicOffsets {
    rows: Vec<TopicOffset>,
}

impl View for TopicOffsets {
    type V = Seq<TopicOffsetView>;

    closed spec fn view(&self) -> Seq<TopicOffsetView> {
        offset_views(self.rows@)
    }
}

impl TopicOffsets {
    /// No offset of any topic.
    pub fn new() -> (offsets: Self)
        ensures
            offsets@ == Seq::<TopicOffsetView>::empty(),
    {
        let offsets = TopicOffsets { rows: Vec::new() };
        assert(offsets@ =~= Seq::<TopicOffsetView>::empty());
        offsets
    }

    fn position(&self, topic: &str) -> (r: Option<usize>)
        ensures
            match r {
                Some(i) => i < self@.len() && first_where(
                    self@,
                    |r: TopicOffsetView| r.topic == topic@,
                ) == Some(i as int),
                None => first_where(self@, |r: TopicOffsetView| r.topic == topic@) is None,
            },
    {
        let ghost same = |r: TopicOffsetView| r.topic == topic@;
        let wanted = topic.to_owned();
        let mut i: usize = 0;
        while i < self.rows.len()
            invariant
                i <= self.rows@.len(),
                wanted@ == topic@,
                same == (|r: TopicOffsetView| r.topic == topic@),
                forall|j: int| 0 <= j < i ==> !same(#[trigger] self@[j]),
            decreases self.rows@.len() - i,
        {
            let row = &self.rows[i];
            assert(self@[i as int] == row@);
            if row.topic == wanted {
                proof {
                    lemma_first_where_is(self@, same, i as int);
                }
                return Some(i);
            }
            i += 1;
        }
        proof {
            lemma_first_where(self@, same);
        }
        None
    }

    /// The last offset of the topic that was dealt with.
    pub fn last_kafka_offset_processed(&self, topic: &str) -> (r: Option<i64>)
        ensures
            r == offset_of(self@, topic@),
    {
        match self.position(topic) {
            Some(i) => {
                assert(self@[i as int] == self.rows@[i as int]@);
                Some(self.rows[i].last_offset)
            },
            None => None,
        }
    }

    /// Records that an offset of the topic was dealt with.
    pub fn update_last_kafka_offset_processed(&mut self, topic: &str, last_event_id: i64)
        ensures
            final(self)@ == recorded(old(self)@, topic@, last_event_id),
    {
        let ghost before = self@;
        match self.position(topic) {
            Some(i) => {
                assert(before[i as int] == self.rows@[i as int]@);
                if self.rows[i].last_offset < last_event_id {
                    let row = TopicOffset { topic: topic.to_owned(), last_offset: last_event_id };
                    assert(offset_views(self.rows@.update(i as int, row)) =~= before.update(
                        i as int,
                        row@,
                    ));
                    self.rows.set(i, row);
                }
            },
            None => {
                let row = TopicOffset { topic: topic.to_owned(), last_offset: last_event_id };
                assert(offset_views(self.rows@.push(row)) =~= before.push(row@));
                self.rows.push(row);
            },
        }
    }
}

/// What a message holds, as far as the listener could read it.
#[derive(Debug)]
pub enum Incoming<M> {
    /// The message has no payload.
    Empty,
    /// The payload is not a message of the topic.
    Undecodable,
    /// The message.
    Message(M),
}

/// What a listener did with a message. In every case the offset of the
/// message is committed to the broker afterwards.
#[derive(Clone, Copy, Debug, PartialEq, Eq, Structural)]
pub enum Ingestion {
    /// The message was passed over: it had been dealt with before the
    /// listener started.
    Bypassed,
    /// The message was handed to the handler, and its offset recorded.
    Handled,
    /// The message could not be read; its offset was recorded so that it
    /// does not hold up those behind it.
    Skipped,
}

/// Whether a message is passed over: an offset was recorded when the
/// listener started, and the offset of the message is not above it.
pub open spec fn bypassed(last_offset: Option<i64>, offset: i64) -> bool {
    last_offset matches Some(last) && last >= offset
}

/// What a listener does with the message at an offset, given the offset
/// that was recorded when the listener started and whether the message
/// could be read.
pub fn ingestion(last_offset: Option<i64>, offset: i64, readable: bool) -> (r: Ingestion)
    ensures
        r == if bypassed(last_offset, offset) {
            Ingestion::Bypassed
        } else if readable {
            Ingestion::Handled
        } else {
            Ingestion::Skipped
        },
{
    if let Some(last) = last_offset {
        if last >= offset {
            return Ingestion::Bypassed;
        }
    }
    if readable {
        Ingestion::Handled
    } else {
        Ingestion::Skipped
    }
}

/// What a consumer is created with.
#[derive(Clone, Debug)]
pub struct ConsumerSettings {
    pub group_id: String,
    pub bootstrap_servers: String,
    pub enable_partition_eof: bool,
    pub session_timeout_ms: u16,
    pub enable_auto_commit: bool,
    pub start_at_earliest_offset: bool,
    pub topic: String,
}

/// The settings of a consumer of a topic in a group: it does not report
/// the end of a partition, commits by itself, and starts at the earliest
/// offset.
pub fn consumer_settings(group: &str, topic: &str, settings: &KafkaSettings) -> (r:
    ConsumerSettings)
    ensures
        r.group_id@ == group@,
        r.topic@ == topic@,
        r.bootstrap_servers@ == settings.bootstrap_servers@,
        r.session_timeout_ms == settings.session_timeout_ms,
        !r.enable_partition_eof,
        r.enable_auto_commit,
        r.start_at_earliest_offset,
{
    ConsumerSettings {
        group_id: group.to_owned(),
        bootstrap_servers: settings.bootstrap_servers.clone(),
        enable_partition_eof: false,
        session_timeout_ms: settings.session_timeout_ms,
        enable_auto_commit: true,
        start_at_earliest_offset: true,
        topic: topic.to_owned(),
    }
}

/// A listener to one topic.
pub struct KafkaListener<H: KafkaMessageHandler> {
    pub name: String,
    pub handler: H,
    pub last_offset: Option<i64>,
}

impl<H: KafkaMessageHandler> KafkaListener<H> {
    /// A listener that starts now: it reads the last offset that was
    /// recorded for its topic.
    pub fn start(name: String, handler: H, offsets: &TopicOffsets) -> (listener: Self)
        ensures
            listener.name == name,
            listener.handler == handler,
            listener.last_offset == offset_of(offsets@, handler.topic_name()),
    {
        let topic = handler.topic();
        let last_offset = offsets.last_kafka_offset_processed(topic);
        KafkaListener { name, handler, last_offset }
    }

    /// The settings of the consumer of the listener: it joins the group of
    /// the handler, subscribes to its topic and starts at the earliest
    /// offset.
    pub fn create_consumer(&self, settings: &KafkaSettings) -> (r: ConsumerSettings)
        ensures
            r.bootstrap_servers@ == settings.bootstrap_servers@,
            r.session_timeout_ms == settings.session_timeout_ms,
            r.group_id@ == self.handler.group_name(),
            r.topic@ == self.handler.topic_name(),
            !r.enable_partition_eof,
            r.enable_auto_commit,
            r.start_at_earliest_offset,
    {
        consumer_settings(self.handler.group(), self.handler.topic(), settings)
    }

    /// Takes in the message at an offset. A message at or below the offset
    /// that was recorded when the listener started is passed over. Any
    /// other message has its offset recorded, whether it could be read or
    /// not, and is handed to the handler if it could.
    pub fn receive(
        &self,
        offsets: &mut TopicOffsets,
        decider: &DecisionMaker,
        store: &mut EventStore,
        offset: i64,
        incoming: Incoming<H::Message>,
    ) -> (r: Ingestion)
        requires
            old(store).wf(),
        ensures
            final(store).wf(),
            consistent(events_of(old(store)@)) ==> consistent(events_of(final(store)@)),
            bypassed(self.last_offset, offset) <==> r == Ingestion::Bypassed,
            r == Ingestion::Bypassed ==> final(offsets)@ == old(offsets)@ && final(store)@ == old(
                store,
            )@,
            r != Ingestion::Bypassed ==> final(offsets)@ == recorded(
                old(offsets)@,
                self.handler.topic_name(),
                offset,
            ),
            r == Ingestion::Handled <==> !bypassed(self.last_offset, offset)
                && incoming is Message,
            r == Ingestion::Skipped ==> final(store)@ == old(store)@,
            r == Ingestion::Handled ==> (incoming matches Incoming::Message(message)
                && self.handler.takes_in(message, old(store)@, final(store)@)),
    {
        let readable = match &incoming {
            Incoming::Message(_) => true,
            _ => false,
        };
        let decided = ingestion(self.last_offset, offset, readable);
        if decided == Ingestion::Bypassed {
            return decided;
        }
        if let Incoming::Message(message) = incoming {
            self.handler.handle_message(decider, store, offset, message);
        }
        offsets.update_last_kafka_offset_processed(self.handler.topic(), offset);
        decided
    }
}

} // verus!
