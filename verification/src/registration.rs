//! Registering with etcd and deregistering from it, step by step.
use crate::codec::arrives;
use crate::document::{document_member, document_text};
use crate::error::{DiscoveryError, ErrorView};
use crate::etcd::{
    delete_op, delete_operation, grant_lease_reply, grant_outcome, put_op, put_operation,
    reads_back, revoke_outcome, txn_outcome, txn_reply, usable, EtcdDiscovery, EtcdView,
};
use crate::http::{undecodable, Reply, Request, RequestView};
use crate::json::Json;
use crate::lease::{Registration, Registrations};
use crate::outcome::{optional, outcome};
use crate::service::{InstanceView, ServiceInstance};
use crate::store::{erases, gets, lemma_erases, lemma_writes, writes};
use vstd::prelude::*;
use vstd::utf8::encode_utf8;

verus! {

/// Where a registration stands while it waits for a reply.
#[derive(Debug)]
pub enum Registering {
    /// For a lease.
    Granting { composite_key: String, idx_key: String, value: String },
    /// For the transaction that writes the keys.
    Writing { lease_id: String },
    /// For the lease to be revoked, after the keys were not written.
    Undoing { error: DiscoveryError },
}

/// The mathematical value of a [`Registering`].
pub enum RegisteringView {
    Granting { composite_key: Seq<char>, idx_key: Seq<char>, value: Seq<char> },
    Writing { lease_id: Seq<char> },
    Undoing { error: ErrorView },
}

impl View for Registering {
    type V = RegisteringView;

    open spec fn view(&self) -> RegisteringView {
        match self {
            Registering::Granting { composite_key, idx_key, value } => RegisteringView::Granting {
                composite_key: composite_key@,
                idx_key: idx_key@,
                value: value@,
            },
            Registering::Writing { lease_id } => RegisteringView::Writing { lease_id: lease_id@ },
            Registering::Undoing { error } => RegisteringView::Undoing { error: error@ },
        }
    }
}

/// What to do next in a registration.
#[derive(Debug)]
pub enum RegisterStep {
    /// Send `request`, and hand the reply back with `then`.
    Send { request: Request, then: Registering },
    /// The keys are written; keep the lease alive.
    Registered { lease_id: String },
    /// The registration failed.
    Failed(DiscoveryError),
}

/// The mathematical value of a [`RegisterStep`].
pub enum RegisterStepView {
    Send { request: RequestView, then: RegisteringView },
    Registered { lease_id: Seq<char> },
    Failed(ErrorView),
}

impl View for RegisterStep {
    type V = RegisterStepView;

    open spec fn view(&self) -> RegisterStepView {
        match self {
            RegisterStep::Send { request, then } => RegisterStepView::Send {
                request: request@,
                then: then@,
            },
            RegisterStep::Registered { lease_id } => RegisterStepView::Registered {
                lease_id: lease_id@,
            },
            RegisterStep::Failed(error) => RegisterStepView::Failed(error@),
        }
    }
}

impl EtcdView {
    /// The request that writes `value` under both keys of an instance, attached to one lease.
    pub open spec fn write_request(
        self,
        composite_key: Seq<char>,
        idx_key: Seq<char>,
        value: Seq<char>,
        lease_id: Seq<char>,
    ) -> RequestView {
        self.txn_request(
            seq![
                put_operation(composite_key, value, lease_id),
                put_operation(idx_key, value, lease_id),
            ],
        )
    }

    /// The request that deletes both keys of an instance.
    pub open spec fn erase_request(
        self,
        composite_key: Seq<char>,
        idx_key: Seq<char>,
    ) -> RequestView {
        self.txn_request(seq![delete_operation(composite_key), delete_operation(idx_key)])
    }

    /// The first step of registering `service`, whose JSON text is `value`.
    pub open spec fn register_start(
        self,
        service: InstanceView,
        value: Result<Seq<char>, Seq<char>>,
    ) -> RegisterStepView {
        match value {
            Err(message) => RegisterStepView::Failed(ErrorView::InvalidConfiguration(message)),
            Ok(value) => RegisterStepView::Send {
                request: self.grant_request(),
                then: RegisteringView::Granting {
                    composite_key: self.composite_key(service.name, service.id),
                    idx_key: self.idx_key(service.id),
                    value,
                },
            },
        }
    }

    /// The step that follows when `reply` arrives.
    pub open spec fn register_next(
        self,
        state: RegisteringView,
        reply: Reply<Vec<u8>>,
    ) -> RegisterStepView {
        match state {
            RegisteringView::Granting { composite_key, idx_key, value } => match grant_outcome(
                reply,
            ) {
                Err(error) => RegisterStepView::Failed(error),
                Ok(lease_id) => RegisterStepView::Send {
                    request: self.write_request(composite_key, idx_key, value, lease_id),
                    then: RegisteringView::Writing { lease_id },
                },
            },
            RegisteringView::Writing { lease_id } => match txn_outcome(reply) {
                Ok(_) => RegisterStepView::Registered { lease_id },
                Err(error) => RegisterStepView::Send {
                    request: self.revoke_request(lease_id),
                    then: RegisteringView::Undoing {
                        error: ErrorView::RegistrationFailed(error.message()),
                    },
                },
            },
            RegisteringView::Undoing { error } => RegisterStepView::Failed(error),
        }
    }
}

impl EtcdDiscovery {
    /// The first step of registering `service`. `value` is the JSON text of `service`, or the
    /// message that says why it has none.
    pub fn register(&self, service: &ServiceInstance, value: Result<String, String>) -> (step:
        RegisterStep)
        ensures
            step@ == self@.register_start(service@, outcome(value)),
    {
        match value {
            Err(message) => RegisterStep::Failed(DiscoveryError::InvalidConfiguration(message)),
            Ok(value) => RegisterStep::Send {
                request: self.grant_lease_request(),
                then: Registering::Granting {
                    composite_key: self.composite_key(&service.name, &service.id),
                    idx_key: self.idx_key(&service.id),
                    value,
                },
            },
        }
    }

    /// The step that follows when `reply` arrives. The transaction writes the two keys and
    /// nothing else, and what is written is read again as it was.
    pub fn register_reply(&self, state: Registering, reply: Reply<Vec<u8>>) -> (step: RegisterStep)
        ensures
            step@ == self@.register_next(state@, reply),
            state matches Registering::Granting { composite_key, idx_key, value } ==> (
            step matches RegisterStep::Send { request, then } ==> writes(
                request@,
                composite_key@,
                idx_key@,
                value@,
            ) && reads_back(composite_key@, value@) && reads_back(idx_key@, value@) && arrives(
                encode_utf8(composite_key@),
            ) && arrives(encode_utf8(idx_key@)) && arrives(encode_utf8(value@))),
            state is Granting ==> (reply matches Reply::Accepted(Ok(body)) ==> match document_member(
                body@,
                "ID"@,
            ) {
                Err(_) => step@ == RegisterStepView::Failed(ErrorView::Http(undecodable())),
                Ok(member) => (step is Send <==> usable(member)) && (!usable(member) ==> step@
                    == RegisterStepView::Failed(
                    ErrorView::RegistrationFailed(
                        "etcd lease grant returned no usable lease id: "@ + document_text(
                            body@,
                        )->Ok_0,
                    ),
                )),
            }),
    {
        match state {
            Registering::Granting { composite_key, idx_key, value } => match grant_lease_reply(
                reply,
            ) {
                Err(error) => RegisterStep::Failed(error),
                Ok(lease_id) => {
                    let mut operations: Vec<Json> = Vec::new();
                    operations.push(put_op(&composite_key, &value, &lease_id));
                    operations.push(put_op(&idx_key, &value, &lease_id));
                    assert(operations@.map_values(|operation: Json| operation@) =~= seq![
                        put_operation(composite_key@, value@, lease_id@),
                        put_operation(idx_key@, value@, lease_id@),
                    ]);
                    proof {
                        lemma_writes(self@, composite_key@, idx_key@, value@, lease_id@);
                    }
                    RegisterStep::Send {
                        request: self.txn_request(operations),
                        then: Registering::Writing { lease_id },
                    }
                },
            },
            Registering::Writing { lease_id } => match txn_reply(reply) {
                Ok(_) => RegisterStep::Registered { lease_id },
                Err(error) => RegisterStep::Send {
                    request: self.revoke_lease_request(&lease_id),
                    then: Registering::Undoing {
                        error: DiscoveryError::RegistrationFailed(error.message()),
                    },
                },
            },
            Registering::Undoing { error } => RegisterStep::Failed(error),
        }
    }
}

/// How a deregistration starts.
#[derive(Debug)]
pub enum DeregisterStep<H> {
    /// This client holds the registration: stop the task `keep_alive` and send `request`, which
    /// revokes the lease and so removes both keys.
    Revoke { keep_alive: H, request: Request },
    /// Another process holds it: send `request`, which looks the instance up by its id.
    Lookup { request: Request },
}

/// The mathematical value of a [`DeregisterStep`].
pub enum DeregisterStepView<H> {
    Revoke { keep_alive: H, request: RequestView },
    Lookup { request: RequestView },
}

impl<H> View for DeregisterStep<H> {
    type V = DeregisterStepView<H>;

    open spec fn view(&self) -> DeregisterStepView<H> {
        match *self {
            DeregisterStep::Revoke { keep_alive, request } => DeregisterStepView::Revoke {
                keep_alive,
                request: request@,
            },
            DeregisterStep::Lookup { request } => DeregisterStepView::Lookup { request: request@ },
        }
    }
}

impl EtcdView {
    /// How the deregistration of `service_id` starts in a client that holds `registrations`.
    pub open spec fn deregister_start<H>(
        self,
        registrations: Map<Seq<char>, Registration<H>>,
        service_id: Seq<char>,
    ) -> DeregisterStepView<H> {
        if registrations.contains_key(service_id) {
            DeregisterStepView::Revoke {
                keep_alive: registrations[service_id].keep_alive,
                request: self.revoke_request(registrations[service_id].lease_id@),
            }
        } else {
            DeregisterStepView::Lookup { request: self.get_request(self.idx_key(service_id)) }
        }
    }

    /// The request that deletes both keys of the instance `found` under the id `service_id`.
    pub open spec fn deregister_next(
        self,
        service_id: Seq<char>,
        found: Result<Option<InstanceView>, ErrorView>,
    ) -> Result<RequestView, ErrorView> {
        match found {
            Ok(Some(instance)) => Ok(
                self.erase_request(
                    self.composite_key(instance.name, instance.id),
                    self.idx_key(service_id),
                ),
            ),
            Ok(None) => Err(ErrorView::ServiceNotFound(service_id)),
            Err(error) => Err(error),
        }
    }
}

/// The view of an instance that may be absent, or of an error.
pub open spec fn instance_outcome(
    found: Result<Option<ServiceInstance>, DiscoveryError>,
) -> Result<Option<InstanceView>, ErrorView> {
    match found {
        Ok(instance) => Ok(optional(instance)),
        Err(error) => Err(error@),
    }
}

impl EtcdDiscovery {
    /// Starts the deregistration of `service_id`.
    pub fn deregister<H>(&self, registrations: &mut Registrations<H>, service_id: &str) -> (step:
        DeregisterStep<H>)
        ensures
            final(registrations)@ == old(registrations)@.remove(service_id@),
            step@ == self@.deregister_start(old(registrations)@, service_id@),
            step matches DeregisterStep::Lookup { request } ==> gets(
                request@,
                self@.idx_key(service_id@),
            ) && arrives(encode_utf8(self@.idx_key(service_id@))),
    {
        match registrations.take_registration(service_id) {
            Some(held) => DeregisterStep::Revoke {
                request: self.revoke_lease_request(&held.lease_id),
                keep_alive: held.keep_alive,
            },
            None => DeregisterStep::Lookup { request: self.get_service_request(service_id) },
        }
    }

    /// The request that deletes both keys of an instance of another process, given what the
    /// lookup of the index key found.
    pub fn deregister_found(
        &self,
        service_id: &str,
        found: Result<Option<ServiceInstance>, DiscoveryError>,
    ) -> (request: Result<Request, DiscoveryError>)
        ensures
            outcome(request) == self@.deregister_next(service_id@, instance_outcome(found)),
            found matches Ok(Some(instance)) ==> (request matches Ok(erase) ==> erases(
                erase@,
                self@.composite_key(instance@.name, instance@.id),
                self@.idx_key(service_id@),
            ) && arrives(encode_utf8(self@.composite_key(instance@.name, instance@.id))) && arrives(
                encode_utf8(self@.idx_key(service_id@)),
            )),
    {
        match found {
            Err(error) => Err(error),
            Ok(None) => Err(DiscoveryError::ServiceNotFound(service_id.to_owned())),
            Ok(Some(instance)) => {
                let composite_key = self.composite_key(&instance.name, &instance.id);
                let idx_key = self.idx_key(service_id);
                let mut operations: Vec<Json> = Vec::new();
                operations.push(delete_op(&composite_key));
                operations.push(delete_op(&idx_key));
                assert(operations@.map_values(|operation: Json| operation@) =~= seq![
                    delete_operation(composite_key@),
                    delete_operation(idx_key@),
                ]);
                proof {
                    lemma_erases(self@, composite_key@, idx_key@);
                }
                Ok(self.txn_request(operations))
            },
        }
    }
}

/// What the reply to the deletion of both keys means.
pub open spec fn erase_outcome<T>(reply: Reply<T>) -> Result<(), ErrorView> {
    match txn_outcome(reply) {
        Ok(_) => Ok(()),
        Err(error) => Err(ErrorView::DeregistrationFailed(error.message())),
    }
}

/// What the reply to the deletion of both keys means.
pub fn deregister_reply<T>(reply: Reply<T>) -> (result: Result<(), DiscoveryError>)
    ensures
        outcome(result) == erase_outcome(reply),
{
    match txn_reply(reply) {
        Ok(_) => Ok(()),
        Err(error) => Err(DiscoveryError::DeregistrationFailed(error.message())),
    }
}

impl EtcdView {
    /// The requests that a registration sends from `step` on while `replies` arrive one by one,
    /// and the step that it then stands at.
    pub open spec fn register_run(self, step: RegisterStepView, replies: Seq<Reply<Vec<u8>>>) -> (
        Seq<RequestView>,
        RegisterStepView,
    )
        decreases replies.len(),
    {
        match step {
            RegisterStepView::Send { request, then } if replies.len() > 0 => {
                let (later, end) = self.register_run(
                    self.register_next(then, replies[0]),
                    replies.drop_first(),
                );
                (seq![request] + later, end)
            },
            _ => (Seq::empty(), step),
        }
    }
}

/// Every registration ends by its third reply, in one of four ways. The instance has no JSON
/// text: nothing is sent. No lease was granted: only the request for it was sent. A lease was
/// granted and both keys written under it, in one transaction. Or a lease was granted and the
/// transaction failed: then the last request revokes that lease, and whatever became of that,
/// the failure of the transaction is what is reported.
pub proof fn registration_runs(
    etcd: EtcdView,
    service: InstanceView,
    value: Result<Seq<char>, Seq<char>>,
    replies: Seq<Reply<Vec<u8>>>,
)
    requires
        replies.len() >= 3,
    ensures
        etcd.register_run(etcd.register_start(service, value), replies) == match value {
            Err(message) => (
                Seq::<RequestView>::empty(),
                RegisterStepView::Failed(ErrorView::InvalidConfiguration(message)),
            ),
            Ok(text) => match grant_outcome(replies[0]) {
                Err(error) => (seq![etcd.grant_request()], RegisterStepView::Failed(error)),
                Ok(lease_id) => {
                    let write = etcd.write_request(
                        etcd.composite_key(service.name, service.id),
                        etcd.idx_key(service.id),
                        text,
                        lease_id,
                    );
                    match txn_outcome(replies[1]) {
                        Ok(_) => (
                            seq![etcd.grant_request(), write],
                            RegisterStepView::Registered { lease_id },
                        ),
                        Err(error) => (
                            seq![etcd.grant_request(), write, etcd.revoke_request(lease_id)],
                            RegisterStepView::Failed(
                                ErrorView::RegistrationFailed(error.message()),
                            ),
                        ),
                    }
                },
            },
        },
{
    reveal_with_fuel(EtcdView::register_run, 4);
    let run = etcd.register_run(etcd.register_start(service, value), replies);
    if let Ok(text) = value {
        let one = replies.drop_first();
        let two = one.drop_first();
        assert(one[0] == replies[1]);
        match grant_outcome(replies[0]) {
            Err(_) => {
                assert(run.0 =~= seq![etcd.grant_request()]);
            },
            Ok(lease_id) => {
                let write = etcd.write_request(
                    etcd.composite_key(service.name, service.id),
                    etcd.idx_key(service.id),
                    text,
                    lease_id,
                );
                match txn_outcome(replies[1]) {
                    Ok(_) => {
                        assert(run.0 =~= seq![etcd.grant_request(), write]);
                    },
                    Err(_) => {
                        assert(two.len() > 0);
                        assert(run.0 =~= seq![
                            etcd.grant_request(),
                            write,
                            etcd.revoke_request(lease_id),
                        ]);
                    },
                }
            },
        }
    }
}

impl EtcdView {
    /// The requests that the deregistration of `service_id` sends in a client that holds
    /// `registrations`, and what comes of it, where `found` is what a lookup finds and `reply` is
    /// the reply to the last request.
    pub open spec fn deregister_run<H, T>(
        self,
        registrations: Map<Seq<char>, Registration<H>>,
        service_id: Seq<char>,
        found: Result<Option<InstanceView>, ErrorView>,
        reply: Reply<T>,
    ) -> (Seq<RequestView>, Result<(), ErrorView>) {
        match self.deregister_start(registrations, service_id) {
            DeregisterStepView::Revoke { keep_alive, request } => (
                seq![request],
                revoke_outcome(reply),
            ),
            DeregisterStepView::Lookup { request } => match self.deregister_next(
                service_id,
                found,
            ) {
                Err(error) => (seq![request], Err(error)),
                Ok(erase) => (seq![request, erase], erase_outcome(reply)),
            },
        }
    }
}

/// Every deregistration runs in one of four ways. This client holds the registration: the lease is
/// revoked, and nothing else is sent. Another process holds it, and the lookup by id finds it:
/// both keys are deleted, in one transaction. The lookup finds nothing, or fails: nothing but the
/// lookup is sent, and the id is reported as not found, or the failure as it is. It succeeds only
/// where the last request was accepted.
pub proof fn deregistration_runs<H, T>(
    etcd: EtcdView,
    registrations: Map<Seq<char>, Registration<H>>,
    service_id: Seq<char>,
    found: Result<Option<InstanceView>, ErrorView>,
    reply: Reply<T>,
)
    ensures
        ({
            let (sent, result) = etcd.deregister_run(registrations, service_id, found, reply);
            let lookup = etcd.get_request(etcd.idx_key(service_id));
            &&& (sent, result) == if registrations.contains_key(service_id) {
                (
                    seq![etcd.revoke_request(registrations[service_id].lease_id@)],
                    revoke_outcome(reply),
                )
            } else {
                match found {
                    Err(error) => (seq![lookup], Err(error)),
                    Ok(None) => (seq![lookup], Err(ErrorView::ServiceNotFound(service_id))),
                    Ok(Some(instance)) => (
                        seq![
                            lookup,
                            etcd.erase_request(
                                etcd.composite_key(instance.name, instance.id),
                                etcd.idx_key(service_id),
                            ),
                        ],
                        erase_outcome(reply),
                    ),
                }
            }
            &&& result is Ok ==> reply is Accepted
            &&& registrations.contains_key(service_id) || (found is Ok && found->Ok_0 is Some) ==> (
            result is Ok <==> reply is Accepted)
        }),
{
}

/// Deregistering what this client registered revokes the lease of that registration, with no
/// lookup, and leaves the other registrations as they were; after it, the id is looked up.
pub proof fn deregistration_revokes_the_lease<H>(
    etcd: EtcdView,
    before: Map<Seq<char>, Registration<H>>,
    service_id: Seq<char>,
    registration: Registration<H>,
)
    ensures
        etcd.deregister_start(before.insert(service_id, registration), service_id) == (
        DeregisterStepView::Revoke {
            keep_alive: registration.keep_alive,
            request: etcd.revoke_request(registration.lease_id@),
        }),
        before.insert(service_id, registration).remove(service_id) == before.remove(service_id),
        etcd.deregister_start(before.remove(service_id), service_id) == (
        DeregisterStepView::<H>::Lookup { request: etcd.get_request(etcd.idx_key(service_id)) }),
{
    assert(before.insert(service_id, registration).remove(service_id) =~= before.remove(
        service_id,
    ));
}

/// Deregistering an instance of another process looks it up under the key by id that it was
/// registered with, and deletes the two keys that it was registered with, in one transaction.
pub proof fn deregistration_deletes_the_written_keys(
    etcd: EtcdView,
    service: InstanceView,
    value: Seq<char>,
)
    ensures
        etcd.register_start(service, Ok(value)) matches RegisterStepView::Send {
            request,
            then: RegisteringView::Granting { composite_key, idx_key, value: written },
        } && written == value && etcd.deregister_start(
            Map::<Seq<char>, Registration<()>>::empty(),
            service.id,
        ) == (DeregisterStepView::<()>::Lookup { request: etcd.get_request(idx_key) })
            && etcd.deregister_next(service.id, Ok(Some(service))) == Ok::<RequestView, ErrorView>(
            etcd.erase_request(composite_key, idx_key),
        ),
{
}

} // verus!
