//! What the engine does with the answers of the central feeder.

use crate::block::Block;
use crate::block::BlockNumber;
use crate::state::ContractClass;
use crate::state::DeprecatedContractClass;
use crate::storage::StorageError;
use std::collections::HashMap;
use vstd::prelude::*;

verus! {

/// The answer "not found" of the feeder's server.
pub const NOT_FOUND: u16 = 404;

/// How the feeder's client retries a request.
#[derive(Clone, Copy, Debug, PartialEq, Eq, Structural)]
pub struct RetryConfig {
    pub retry_base_millis: u64,
    pub retry_max_delay_millis: u64,
    pub max_retries: usize,
}

/// How to reach the feeder.
#[derive(Clone, Debug, PartialEq, Eq)]
pub struct CentralSourceConfig {
    /// How many requests may be under way at once.
    pub concurrent_requests: usize,
    pub url: String,
    pub http_headers: Option<HashMap<String, String>>,
    pub retry_config: RetryConfig,
}

/// Why the client gave up retrying.
#[derive(Clone, Copy, Debug, PartialEq, Eq, Structural)]
pub enum RetryErrorCode {
    Redirect,
    Timeout,
    TooManyRequests,
    ServiceUnavailable,
    Disconnect,
}

/// A failure of the feeder's client, with what the engine needs to know of it.
#[derive(Clone, Debug, PartialEq, Eq)]
#[allow(inconsistent_fields)]
pub enum ClientError {
    /// The server answered with a status that is no success.
    BadResponseStatus { code: u16, message: String },
    /// The request failed; `is_request` says that it failed before it was sent.
    RequestError { is_request: bool, message: String },
    /// The client gave up retrying.
    RetryError { code: RetryErrorCode, message: String },
    /// The answer could not be decoded; `is_syntax` says that it was no
    /// well-formed document at all.
    SerdeError { is_syntax: bool, message: String },
    /// The feeder reported an error of its own.
    StarknetError { message: String },
}

/// A failure of the central source.
#[derive(Clone, Debug, PartialEq, Eq)]
pub enum CentralError {
    ClientCreation { message: String },
    ClientError(ClientError),
    StateUpdateNotFound,
    ClassNotFound,
    BlockNotFound { block_number: BlockNumber },
    StarknetApiError { message: String },
    StorageError(StorageError),
    BadContractClassType,
}

pub type CentralResult<T> = Result<T, CentralError>;

/// A class definition as the feeder serves it: of the old kind or of the new.
#[derive(Clone, Debug, PartialEq, Eq)]
pub enum ApiContractClass {
    DeprecatedContractClass(DeprecatedContractClass),
    ContractClass(ContractClass),
}

impl ApiContractClass {
    /// The definition, if it is of the old kind.
    pub fn into_cairo0(self) -> (r: CentralResult<DeprecatedContractClass>)
        ensures
            match self {
                ApiContractClass::DeprecatedContractClass(class) => r == Ok::<_, CentralError>(class),
                ApiContractClass::ContractClass(_) => r == Err::<DeprecatedContractClass, _>(
                    CentralError::BadContractClassType,
                ),
            },
    {
        match self {
            ApiContractClass::DeprecatedContractClass(class) => Ok(class),
            _ => Err(CentralError::BadContractClassType),
        }
    }

    /// The definition, if it is of the new kind.
    pub fn into_cairo1(self) -> (r: CentralResult<ContractClass>)
        ensures
            match self {
                ApiContractClass::ContractClass(class) => r == Ok::<_, CentralError>(class),
                ApiContractClass::DeprecatedContractClass(_) => r == Err::<ContractClass, _>(
                    CentralError::BadContractClassType,
                ),
            },
    {
        match self {
            ApiContractClass::ContractClass(class) => Ok(class),
            _ => Err(CentralError::BadContractClassType),
        }
    }
}

/// The block marker of the feeder, from the number of the last block it has:
/// the number after it, or zero where it has none.
pub open spec fn marker_after(latest: Option<BlockNumber>) -> BlockNumber {
    match latest {
        Some(number) => BlockNumber((number.0 + 1) as u64),
        None => BlockNumber(0),
    }
}

/// The number of the first block that the feeder does not have yet, from the
/// number of the last block it has.
pub fn get_block_marker(latest: Option<BlockNumber>) -> (r: BlockNumber)
    requires
        latest matches Some(number) ==> number.0 < u64::MAX,
    ensures
        r == marker_after(latest),
{
    match latest {
        Some(number) => number.next(),
        None => BlockNumber(0),
    }
}

/// What the answer to a request for block `current_block_number` comes to.
pub open spec fn central_block(
    current_block_number: BlockNumber,
    maybe_client_block: Result<Option<Block>, ClientError>,
) -> CentralResult<Block> {
    match maybe_client_block {
        Ok(Some(block)) => Ok(block),
        Ok(None) => Err(CentralError::BlockNotFound { block_number: current_block_number }),
        Err(err) => Err(CentralError::ClientError(err)),
    }
}

/// Turns the client's answer for one block into the block or into the error
/// of the central source: a block that the feeder does not know is
/// `BlockNotFound`, a failure of the client is passed on.
pub fn client_to_central_block(
    current_block_number: BlockNumber,
    maybe_client_block: Result<Option<Block>, ClientError>,
) -> (r: CentralResult<Block>)
    ensures
        r == central_block(current_block_number, maybe_client_block),
{
    match maybe_client_block {
        Ok(Some(block)) => Ok(block),
        Ok(None) => Err(CentralError::BlockNotFound { block_number: current_block_number }),
        Err(err) => Err(CentralError::ClientError(err)),
    }
}

/// The answer holds a block.
pub open spec fn is_block(answer: Result<Option<Block>, ClientError>) -> bool {
    answer matches Ok(Some(_))
}

/// The item that a stream of blocks yields for the answer at place `i`.
pub open spec fn stream_item(
    initial_block_number: BlockNumber,
    answers: Seq<Result<Option<Block>, ClientError>>,
    i: int,
) -> CentralResult<(BlockNumber, Block)> {
    let number = BlockNumber((initial_block_number.0 + i) as u64);
    match central_block(number, answers[i]) {
        Ok(block) => Ok((number, block)),
        Err(err) => Err(err),
    }
}

/// How many items a stream of blocks yields for these answers: one for each
/// answer up to the first that is an error, that one included.
pub open spec fn stream_len(answers: Seq<Result<Option<Block>, ClientError>>) -> nat
    decreases answers.len(),
{
    if answers.len() == 0 {
        0
    } else if is_block(answers[0]) {
        1 + stream_len(answers.drop_first())
    } else {
        1
    }
}

/// What a stream of the blocks from `initial_block_number` on yields, given the
/// client's answers in ascending order of block number: each block with its
/// number, in that order, until an answer is an error; the error is the last
/// item.
pub fn stream_new_blocks(
    initial_block_number: BlockNumber,
    answers: Vec<Result<Option<Block>, ClientError>>,
) -> (items: Vec<CentralResult<(BlockNumber, Block)>>)
    requires
        initial_block_number.0 + answers.len() <= u64::MAX,
    ensures
        items.len() == stream_len(answers@),
        forall|i: int| 0 <= i < items.len() ==> items[i] == stream_item(initial_block_number, answers@, i),
{
    let ghost all = answers@;
    let mut items: Vec<CentralResult<(BlockNumber, Block)>> = Vec::new();
    let mut number: u64 = initial_block_number.0;
    let mut failed = false;
    for answer in it: answers
        invariant
            it.seq() == all,
            initial_block_number.0 + all.len() <= u64::MAX,
            number == initial_block_number.0 + (if failed { items.len() as int } else { it.index() as int }),
            !failed ==> items.len() == it.index(),
            failed ==> items.len() <= it.index(),
            forall|i: int| 0 <= i < items.len() ==> items[i] == stream_item(initial_block_number, all, i),
            !failed ==> forall|i: int| 0 <= i < items.len() ==> is_block(#[trigger] all[i]),
            failed ==> items.len() > 0 && !is_block(all[items.len() - 1]) && forall|i: int|
                0 <= i < items.len() - 1 ==> is_block(#[trigger] all[i]),
    {
        if !failed {
            let current = BlockNumber(number);
            match client_to_central_block(current, answer) {
                Ok(block) => {
                    items.push(Ok((current, block)));
                    number = number + 1;
                },
                Err(err) => {
                    items.push(Err(err));
                    number = number + 1;
                    failed = true;
                },
            }
        }
    }
    proof {
        lemma_stream_len(all, items.len() as int, failed);
    }
    items
}

proof fn lemma_stream_len(answers: Seq<Result<Option<Block>, ClientError>>, yielded: int, failed: bool)
    requires
        0 <= yielded <= answers.len(),
        !failed ==> yielded == answers.len(),
        !failed ==> forall|i: int| 0 <= i < yielded ==> is_block(#[trigger] answers[i]),
        failed ==> yielded > 0 && !is_block(answers[yielded - 1]) && forall|i: int|
            0 <= i < yielded - 1 ==> is_block(#[trigger] answers[i]),
    ensures
        stream_len(answers) == yielded,
    decreases answers.len(),
{
    if answers.len() == 0 {
    } else if is_block(answers[0]) {
        let rest = answers.drop_first();
        assert forall|i: int| 0 <= i < rest.len() implies rest[i] == answers[i + 1] by {}
        lemma_stream_len(rest, yielded - 1, failed);
    } else {
    }
}

} // verus!
