//! The producer client's verified side: its configuration and the encoding
//! step of `publish`.  The send itself is broker I/O and stays outside,
//! driven by the retry policy in `driver`.
use vstd::prelude::*;

verus! {

use crate::codec::{spec_encode, EncodeError, Field};
use crate::driver::{PublishError, SendResult};
use crate::event::BillingEvent;

/// How many broker acknowledgments a send waits for.
#[derive(Clone, Copy, PartialEq, Eq, Structural, Debug)]
pub enum AckLevel {
    /// Fire and forget.
    NoAcks,
    /// The partition leader has the record.
    LeaderOnly,
    /// Every in-sync replica has the record.
    AllReplicas,
}

/// What a producer is connected with.
pub struct ProducerConfig {
    pub acks: AckLevel,
    pub ack_timeout_ms: u64,
    pub topic: String,
}

impl ProducerConfig {
    /// The stock configuration: leader acknowledgment, a one-second send
    /// timeout, the billing topic.
    pub fn new() -> (r: ProducerConfig)
        ensures
            r.acks == AckLevel::LeaderOnly,
            r.ack_timeout_ms == 1000u64,
            r.topic@ == "billing"@,
    {
        ProducerConfig { acks: AckLevel::LeaderOnly, ack_timeout_ms: 1000, topic: "billing".to_owned() }
    }
}

/// The compute half of `publish`: the bytes that will be sent for this
/// event, or the error `publish` reports without sending anything.
pub fn prepare_publish(e: &BillingEvent) -> (r: Result<Vec<u8>, EncodeError>)
    ensures
        match r {
            Ok(b) => e@.wf() && b@ == spec_encode(e@),
            Err(err) => !e@.wf() && err == EncodeError::Unrepresentable(Field::Mileage),
        },
{
    e.encode()
}

/// What one `publish` reports: the acknowledgment, or
/// `PublishError::Timeout` exactly when the broker did not answer in time.
/// The producer itself never retries — retrying is the driver's decision.
pub fn send_outcome(res: SendResult) -> (r: Result<(), PublishError>)
    ensures
        r is Ok <==> res == SendResult::Acked,
        r is Err <==> res == SendResult::TimedOut,
        r is Err ==> r == Err::<(), PublishError>(PublishError::Timeout),
{
    match res {
        SendResult::Acked => Ok(()),
        SendResult::TimedOut => Err(PublishError::Timeout),
    }
}

} // verus!
