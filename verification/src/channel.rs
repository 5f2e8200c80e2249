use vstd::prelude::*;

verus! {

// The two halves of a crossbeam channel, declared so that they can stand in
// fields and signatures. Values of these types are opaque here; what a
// channel holds is named per channel type beside its wrappers.
#[verifier::external_type_specification]
#[verifier::external_body]
#[verifier::reject_recursive_types(T)]
pub struct ExSender<T>(crossbeam_channel::Sender<T>);

#[verifier::external_type_specification]
#[verifier::external_body]
#[verifier::reject_recursive_types(T)]
pub struct ExReceiver<T>(crossbeam_channel::Receiver<T>);

} // verus!
