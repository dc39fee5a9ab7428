//! Publishing a message together with the event that records it.
//!
//! A publication goes through a fixed sequence of steps against the broker
//! and the event log. The library decides which step comes next; whoever
//! drives the publication performs each step and reports how it went.

use std::hash::DefaultHasher;

use vstd::prelude::*;
use vstd::std_specs::hash::DefaultHasherAdditionalSpecFns;
use vstd::string::to_string_from_display_ensures;

use crate::domain::cart::ExternalPublishCart;
use crate::infra::KafkaSettings;

verus! {

/// Which part of a publication failed.
#[derive(Clone, Copy, Debug, PartialEq, Eq, Structural)]
pub enum PublishError {
    Kafka,
    EventStore,
    Serde,
}

/// A step of a publication.
#[derive(Clone, Copy, Debug, PartialEq, Eq, Structural)]
pub enum PublishStep {
    /// Create a transactional producer whose transactional id is the topic.
    CreateProducer,
    /// Serialise the message.
    Serialize,
    /// Send the message, keyed by the hash of its payload.
    Send,
    /// Append the success event to the log without validation.
    Append,
    /// Commit the transaction.
    Commit,
    /// Flush the producer and abort the transaction.
    Abort,
    /// Nothing is left to do.
    Finished,
}

/// A publication under way: the step to perform next, and the failure to
/// report once the publication has finished.
#[derive(Clone, Copy, Debug, PartialEq, Eq, Structural)]
pub struct Publication {
    pub step: PublishStep,
    pub failure: Option<PublishError>,
}

impl Publication {
    /// The publication after its current step was performed. A failure to
    /// send or to append aborts the transaction before the failure is
    /// reported; a failure to create the producer, to serialise, to commit
    /// or to abort ends the publication at once.
    pub open spec fn next(self, succeeded: bool) -> Publication {
        match self.step {
            PublishStep::CreateProducer => if succeeded {
                Publication { step: PublishStep::Serialize, ..self }
            } else {
                Publication { step: PublishStep::Finished, failure: Some(PublishError::Kafka) }
            },
            PublishStep::Serialize => if succeeded {
                Publication { step: PublishStep::Send, ..self }
            } else {
                Publication { step: PublishStep::Finished, failure: Some(PublishError::Serde) }
            },
            PublishStep::Send => if succeeded {
                Publication { step: PublishStep::Append, ..self }
            } else {
                Publication { step: PublishStep::Abort, failure: Some(PublishError::Kafka) }
            },
            PublishStep::Append => if succeeded {
                Publication { step: PublishStep::Commit, ..self }
            } else {
                Publication { step: PublishStep::Abort, failure: Some(PublishError::EventStore) }
            },
            PublishStep::Commit => if succeeded {
                Publication { step: PublishStep::Finished, ..self }
            } else {
                Publication { step: PublishStep::Finished, failure: Some(PublishError::Kafka) }
            },
            PublishStep::Abort => if succeeded {
                Publication { step: PublishStep::Finished, ..self }
            } else {
                Publication { step: PublishStep::Finished, failure: Some(PublishError::Kafka) }
            },
            PublishStep::Finished => self,
        }
    }

    /// A publication that has not begun.
    pub fn start() -> (publication: Publication)
        ensures
            publication == (Publication { step: PublishStep::CreateProducer, failure: None }),
    {
        Publication { step: PublishStep::CreateProducer, failure: None }
    }

    /// Takes in how the current step went.
    pub fn advance(&mut self, succeeded: bool)
        ensures
            *final(self) == old(self).next(succeeded),
    {
        match self.step {
            PublishStep::CreateProducer => {
                if succeeded {
                    self.step = PublishStep::Serialize;
                } else {
                    self.step = PublishStep::Finished;
                    self.failure = Some(PublishError::Kafka);
                }
            },
            PublishStep::Serialize => {
                if succeeded {
                    self.step = PublishStep::Send;
                } else {
                    self.step = PublishStep::Finished;
                    self.failure = Some(PublishError::Serde);
                }
            },
            PublishStep::Send => {
                if succeeded {
                    self.step = PublishStep::Append;
                } else {
                    self.step = PublishStep::Abort;
                    self.failure = Some(PublishError::Kafka);
                }
            },
            PublishStep::Append => {
                if succeeded {
                    self.step = PublishStep::Commit;
                } else {
                    self.step = PublishStep::Abort;
                    self.failure = Some(PublishError::EventStore);
                }
            },
            PublishStep::Commit => {
                self.step = PublishStep::Finished;
                if !succeeded {
                    self.failure = Some(PublishError::Kafka);
                }
            },
            PublishStep::Abort => {
                self.step = PublishStep::Finished;
                if !succeeded {
                    self.failure = Some(PublishError::Kafka);
                }
            },
            PublishStep::Finished => {},
        }
    }

    /// The result of a publication that has finished; `None` while it is
    /// under way.
    pub fn result(&self) -> (r: Option<Result<(), PublishError>>)
        ensures
            r == match (self.step, self.failure) {
                (PublishStep::Finished, Some(error)) => Some(Err::<(), PublishError>(error)),
                (PublishStep::Finished, None) => Some(Ok::<(), PublishError>(())),
                _ => None,
            },
    {
        match self.step {
            PublishStep::Finished => match self.failure {
                Some(error) => Some(Err(error)),
                None => Some(Ok(())),
            },
            _ => None,
        }
    }
}

/// The steps of a publication, from its start, given how each step went.
pub open spec fn after_steps(outcomes: Seq<bool>) -> Publication
    decreases outcomes.len(),
{
    if outcomes.len() == 0 {
        Publication { step: PublishStep::CreateProducer, failure: None }
    } else {
        after_steps(outcomes.drop_last()).next(outcomes.last())
    }
}

/// A publication succeeds only by way of all five steps, each of which
/// succeeded: the producer, the payload, the message, the event, the
/// commit. The event is appended only after the message was sent.
pub proof fn lemma_success_takes_every_step(outcomes: Seq<bool>)
    requires
        after_steps(outcomes).step == PublishStep::Finished,
        after_steps(outcomes).failure is None,
    ensures
        outcomes.len() >= 5,
        forall|i: int| 0 <= i < 5 ==> #[trigger] outcomes[i],
{
    lemma_steps(outcomes);
}

/// Where a publication stands after its first steps.
proof fn lemma_steps(outcomes: Seq<bool>)
    ensures
        ({
            let p = after_steps(outcomes);
            let all = forall|i: int| 0 <= i < outcomes.len() && i < 5 ==> #[trigger] outcomes[i];
            &&& p.failure is None ==> all
            &&& p.failure is None ==> (outcomes.len() == 0 <==> p.step
                == PublishStep::CreateProducer)
            &&& p.failure is None ==> (outcomes.len() == 1 <==> p.step == PublishStep::Serialize)
            &&& p.failure is None ==> (outcomes.len() == 2 <==> p.step == PublishStep::Send)
            &&& p.failure is None ==> (outcomes.len() == 3 <==> p.step == PublishStep::Append)
            &&& p.failure is None ==> (outcomes.len() == 4 <==> p.step == PublishStep::Commit)
            &&& p.failure is None ==> (outcomes.len() >= 5 <==> p.step == PublishStep::Finished)
            &&& p.failure is None ==> p.step != PublishStep::Abort
        }),
    decreases outcomes.len(),
{
    if outcomes.len() > 0 {
        let front = outcomes.drop_last();
        lemma_steps(front);
        assert(forall|i: int| 0 <= i < front.len() ==> front[i] == outcomes[i]);
        let p = after_steps(front);
        if after_steps(outcomes).failure is None {
            assert(p.failure is None);
            assert(forall|i: int| 0 <= i < front.len() && i < 5 ==> #[trigger] front[i]);
            assert forall|i: int| 0 <= i < outcomes.len() && i < 5 implies #[trigger] outcomes[i] by {
                if i < front.len() {
                    assert(front[i]);
                }
            }
        }
    }
}

/// What a transactional producer is created with.
#[derive(Clone, Debug)]
pub struct ProducerSettings {
    pub bootstrap_servers: String,
    pub message_timeout_ms: u16,
    pub enable_idempotence: bool,
    pub transactional_id: String,
}

/// The settings of the producer of a publication: idempotent, with the
/// given transactional id, and with the session timeout of the settings as
/// the time a message may take.
pub fn create_transactional_producer(settings: &KafkaSettings, transactional_id: String) -> (r:
    ProducerSettings)
    ensures
        r.bootstrap_servers@ == settings.bootstrap_servers@,
        r.message_timeout_ms == settings.session_timeout_ms,
        r.enable_idempotence,
        r.transactional_id@ == transactional_id@,
{
    ProducerSettings {
        bootstrap_servers: settings.bootstrap_servers.clone(),
        message_timeout_ms: settings.session_timeout_ms,
        enable_idempotence: true,
        transactional_id,
    }
}

/// Feeds a message to a hasher with `std::hash::Hash::hash`, through the
/// `Hash` impl of the message. Nothing is claimed of what the hasher has
/// taken in afterwards.
#[verifier::external_body]
fn feed(message: &ExternalPublishCart, hasher: &mut DefaultHasher) {
    std::hash::Hash::hash(message, hasher);
}

/// The 64-bit hash of a message: what a new `DefaultHasher` gives after it
/// was fed the message. The standard library does not fix the algorithm.
pub(crate) fn calculate_hash(message: &ExternalPublishCart) -> (hash: u64)
    ensures
        exists|taken_in: Seq<Seq<u8>>| hash == #[trigger] DefaultHasher::spec_finish(taken_in),
{
    let mut hasher = DefaultHasher::new();
    feed(message, &mut hasher);
    let hash: u64 = std::hash::Hasher::finish(&hasher);
    hash
}

/// The key under which a message is sent: the 64-bit hash of the message,
/// in decimal.
pub fn message_key(message: &ExternalPublishCart) -> (key: String)
    ensures
        exists|hash: u64| #[trigger] to_string_from_display_ensures::<u64>(&hash, key),
{
    let hash: u64 = calculate_hash(message);
    hash.to_string()
}

} // verus!
