//! The calls into `tokio` and `num_cpus` that the pool is built on.
//!
//! What Verus believes of them without proof is all in this file.

use tokio::executor::SpawnError;
use tokio::runtime::current_thread::Handle as WorkerHandle;
use tokio::sync::oneshot::error::RecvError;
use tokio::sync::oneshot::{Receiver, Sender};
use vstd::prelude::*;

verus! {

/// `tokio::runtime::current_thread::Handle`: the handle through which futures are sent to the
/// single-threaded runtime of one worker. Nothing inside it is visible to Verus.
#[verifier::external_type_specification]
#[verifier::external_body]
pub struct ExWorkerHandle(WorkerHandle);

/// `tokio::executor::SpawnError`: why a runtime refused a future. Nothing inside it is visible
/// to Verus.
#[verifier::external_type_specification]
#[verifier::external_body]
pub struct ExSpawnError(SpawnError);

/// `tokio::sync::oneshot::Sender`: the half of a one-shot channel that sends. Nothing inside it
/// is visible to Verus.
#[verifier::external_type_specification]
#[verifier::external_body]
#[verifier::reject_recursive_types(T)]
pub struct ExSender<T>(Sender<T>);

/// `tokio::sync::oneshot::Receiver`: the half of a one-shot channel that receives. Nothing
/// inside it is visible to Verus.
#[verifier::external_type_specification]
#[verifier::external_body]
#[verifier::reject_recursive_types(T)]
pub struct ExReceiver<T>(Receiver<T>);

/// `tokio::sync::oneshot::error::RecvError`: the sender went away without sending. It is declared
/// because it occurs in what a `Receiver` resolves to.
#[verifier::external_type_specification]
#[verifier::external_body]
pub struct ExRecvError(RecvError);

/// `num_cpus::get` returns the number of CPUs available to the process. It depends on the
/// machine, on the affinity mask and on control groups; all that is claimed is what its
/// documentation promises, that it is at least 1.
pub assume_specification[ num_cpus::get ]() -> (cpus: usize)
    ensures
        cpus >= 1,
;

/// `tokio::sync::oneshot::channel` makes a new channel and returns its two ends. Both are opaque, so
/// nothing more is claimed of them.
pub assume_specification<T>[ tokio::sync::oneshot::channel::<T> ]() -> (ends: (
    Sender<T>,
    Receiver<T>,
));

/// `tokio::sync::oneshot::Sender::send` passes the value on to the receiver of the channel. Whether
/// the receiver is still there depends on the other thread, and is left open; where it is not, the
/// value comes back in the error.
pub assume_specification<T>[ Sender::<T>::send ](sender: Sender<T>, t: T) -> (sent: Result<(), T>)
    ensures
        sent matches Err(back) ==> back == t,
;

/// The clone that `derive` gives `tokio::runtime::current_thread::Handle` refers to the same
/// runtime as the handle it was made from: every field is shared or copied.
pub assume_specification[ <WorkerHandle as Clone>::clone ](worker: &WorkerHandle) -> (copy:
    WorkerHandle)
    ensures
        copy == *worker,
;

} // verus!
