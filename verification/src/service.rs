//! The service registry: a list of named services with a description each.
//!
//! The list is handed in by the caller, who loads it before a call and
//! stores it after one. A service keeps the id it was registered under: one
//! more than the number of services registered before it.
use vstd::prelude::*;

verus! {

/// The message that sets the registry up. It carries nothing.
#[derive(Clone, Copy, Debug, PartialEq, Eq)]
pub struct InstantiateMsg {}

/// A registration: the name and the description of a new service.
#[derive(Clone, Debug, PartialEq, Eq)]
pub struct RegisterServiceMsg {
    pub name: String,
    pub description: String,
}

/// An update: the id of a service and the description it is to get.
#[derive(Clone, Debug, PartialEq, Eq)]
pub struct UpdateServiceMsg {
    pub id: u64,
    pub new_description: String,
}

/// A message that changes the registry: a registration, or else an update.
#[derive(Clone, Debug, PartialEq, Eq)]
pub struct ExecuteMsg {
    pub register_service: Option<RegisterServiceMsg>,
    pub update_service: Option<UpdateServiceMsg>,
}

/// A message that reads the registry.
#[derive(Clone, Copy, Debug, PartialEq, Eq)]
pub enum QueryMsg {
    /// Asks for the service with the given id.
    GetService { id: u64 },
}

/// A registered service.
#[derive(Clone, Debug, PartialEq, Eq)]
pub struct ServiceResponse {
    pub id: u64,
    pub name: String,
    pub description: String,
}

/// A registered service as a mathematical value: the fields of
/// `ServiceResponse`, each text as a sequence of characters.
pub struct ServiceView {
    pub id: u64,
    pub name: Seq<char>,
    pub description: Seq<char>,
}

impl View for ServiceResponse {
    type V = ServiceView;

    open spec fn view(&self) -> ServiceView {
        ServiceView { id: self.id, name: self.name@, description: self.description@ }
    }
}

/// Why the registry refused a message.
#[derive(Clone, Copy, Debug, PartialEq, Eq, Structural)]
pub enum ServiceError {
    /// The message holds neither a registration nor an update.
    InvalidMessage,
    /// No service has the given id.
    NotFound,
    /// The next id would not fit a `u64`.
    Overflow,
}

/// What a message changed, with the id of the service concerned.
#[derive(Clone, Copy, Debug, PartialEq, Eq, Structural)]
pub enum Executed {
    /// A service was registered under this id.
    Registered(u64),
    /// The service with this id got a new description.
    Updated(u64),
}

/// The services of a list as mathematical values, in the order of the list.
pub open spec fn views(services: Seq<ServiceResponse>) -> Seq<ServiceView> {
    Seq::new(services.len(), |i: int| services[i]@)
}

/// The place of the first service with this id, if the list holds one.
pub open spec fn index_of(list: Seq<ServiceView>, id: u64) -> Option<int>
    decreases list.len(),
{
    if list.len() == 0 {
        None
    } else {
        match index_of(list.drop_last(), id) {
            Some(i) => Some(i),
            None => if list.last().id == id {
                Some(list.len() - 1)
            } else {
                None
            },
        }
    }
}

/// A registration: the new service goes to the end of the list, under the
/// id that is one more than the number of services before it. The result is
/// that id and the next list.
pub open spec fn registered(list: Seq<ServiceView>, name: Seq<char>, description: Seq<char>)
    -> Result<(u64, Seq<ServiceView>), ServiceError> {
    if list.len() >= u64::MAX {
        Err(ServiceError::Overflow)
    } else {
        Ok(
            (
                (list.len() + 1) as u64,
                list.push(ServiceView { id: (list.len() + 1) as u64, name, description }),
            ),
        )
    }
}

/// An update: the first service with the id gets the new description.
pub open spec fn updated(list: Seq<ServiceView>, id: u64, description: Seq<char>) -> Result<
    Seq<ServiceView>,
    ServiceError,
> {
    match index_of(list, id) {
        Some(i) => Ok(list.update(i, ServiceView { description, ..list[i] })),
        None => Err(ServiceError::NotFound),
    }
}

/// A lookup: the first service with the id.
pub open spec fn found(list: Seq<ServiceView>, id: u64) -> Result<ServiceView, ServiceError> {
    match index_of(list, id) {
        Some(i) => Ok(list[i]),
        None => Err(ServiceError::NotFound),
    }
}

/// A message that changes the registry: the registration where the message
/// holds one, else the update where it holds one.
pub open spec fn executed(list: Seq<ServiceView>, msg: ExecuteMsg) -> Result<
    (Executed, Seq<ServiceView>),
    ServiceError,
> {
    match msg.register_service {
        Some(registration) => match registered(list, registration.name@, registration.description@) {
            Ok((id, next)) => Ok((Executed::Registered(id), next)),
            Err(e) => Err(e),
        },
        None => match msg.update_service {
            Some(update) => match updated(list, update.id, update.new_description@) {
                Ok(next) => Ok((Executed::Updated(update.id), next)),
                Err(e) => Err(e),
            },
            None => Err(ServiceError::InvalidMessage),
        },
    }
}

/// What the first `n + 1` services give is what the first `n` give, or
/// else what service `n` gives.
pub proof fn lemma_index_of_next(list: Seq<ServiceView>, id: u64, n: int)
    requires
        0 <= n < list.len(),
    ensures
        index_of(list.take(n + 1), id) == match index_of(list.take(n), id) {
            Some(i) => Some(i),
            None => if list[n].id == id {
                Some(n)
            } else {
                None
            },
        },
{
    assert(list.take(n + 1).drop_last() =~= list.take(n));
}

/// A place found in a part of the list is the place found in the whole.
pub proof fn lemma_index_of_prefix(list: Seq<ServiceView>, id: u64, n: int)
    requires
        0 <= n <= list.len(),
        index_of(list.take(n), id) is Some,
    ensures
        index_of(list, id) == index_of(list.take(n), id),
    decreases list.len(),
{
    if n == list.len() {
        assert(list.take(n) =~= list);
    } else {
        assert(list.drop_last().take(n) =~= list.take(n));
        lemma_index_of_prefix(list.drop_last(), id, n);
    }
}

/// The registry at the start: no service.
pub fn instantiate(msg: InstantiateMsg) -> (services: Vec<ServiceResponse>)
    ensures
        services@.len() == 0,
{
    Vec::new()
}

/// The place of the first service with this id.
fn position(services: &Vec<ServiceResponse>, id: u64) -> (place: Option<usize>)
    ensures
        match index_of(views(services@), id) {
            Some(i) => place == Some(i as usize) && 0 <= i < services.len() && services[i].id
                == id,
            None => place is None,
        },
{
    let ghost list = views(services@);
    let mut i: usize = 0;
    proof {
        assert(list.take(0) =~= Seq::<ServiceView>::empty());
    }
    while i < services.len()
        invariant
            i <= services.len(),
            list == views(services@),
            index_of(list.take(i as int), id) is None,
        decreases services.len() - i,
    {
        proof {
            lemma_index_of_next(list, id, i as int);
        }
        if services[i].id == id {
            proof {
                lemma_index_of_prefix(list, id, i + 1);
            }
            return Some(i);
        }
        i += 1;
    }
    proof {
        assert(list.take(i as int) =~= list);
    }
    None
}

/// Registers a service at the end of the list, under the id that is one more
/// than the number of services before it. Returns the id. Refused with
/// `Overflow` only where that id would not fit a `u64`.
pub fn try_register_service(services: &mut Vec<ServiceResponse>, msg: RegisterServiceMsg) -> (r:
    Result<u64, ServiceError>)
    ensures
        match registered(views(old(services)@), msg.name@, msg.description@) {
            Ok((id, next)) => r == Ok::<u64, ServiceError>(id) && views(final(services)@) == next,
            Err(e) => r == Err::<u64, ServiceError>(e) && final(services)@ == old(services)@,
        },
{
    let count: u64 = services.len() as u64;
    if count == u64::MAX {
        return Err(ServiceError::Overflow);
    }
    let id: u64 = count + 1;
    services.push(ServiceResponse { id, name: msg.name, description: msg.description });
    Ok(id)
}

/// Gives the first service with the id of the message the description of
/// the message. Returns the id. Refused with `NotFound` where no service has
/// the id.
pub fn try_update_service(services: &mut Vec<ServiceResponse>, msg: UpdateServiceMsg) -> (r:
    Result<u64, ServiceError>)
    ensures
        match updated(views(old(services)@), msg.id, msg.new_description@) {
            Ok(next) => r == Ok::<u64, ServiceError>(msg.id) && views(final(services)@) == next,
            Err(e) => r == Err::<u64, ServiceError>(e) && final(services)@ == old(services)@,
        },
{
    match position(services, msg.id) {
        Some(i) => {
            let name = services[i].name.clone();
            services.set(i, ServiceResponse { id: msg.id, name, description: msg.new_description });
            proof {
                let before = views(old(services)@);
                assert(views(services@) =~= before.update(
                    i as int,
                    ServiceView { description: msg.new_description@, ..before[i as int] },
                ));
            }
            Ok(msg.id)
        },
        None => Err(ServiceError::NotFound),
    }
}

/// Applies a message to the registry: the registration where the message
/// holds one, else the update where it holds one. Refused with
/// `InvalidMessage` where it holds neither, and else as the registration or
/// the update is.
pub fn execute(services: &mut Vec<ServiceResponse>, msg: ExecuteMsg) -> (r: Result<
    Executed,
    ServiceError,
>)
    ensures
        match executed(views(old(services)@), msg) {
            Ok((done, next)) => r == Ok::<Executed, ServiceError>(done) && views(final(services)@)
                == next,
            Err(e) => r == Err::<Executed, ServiceError>(e) && final(services)@ == old(services)@,
        },
{
    match msg.register_service {
        Some(registration) => match try_register_service(services, registration) {
            Ok(id) => Ok(Executed::Registered(id)),
            Err(e) => Err(e),
        },
        None => match msg.update_service {
            Some(update) => match try_update_service(services, update) {
                Ok(id) => Ok(Executed::Updated(id)),
                Err(e) => Err(e),
            },
            None => Err(ServiceError::InvalidMessage),
        },
    }
}

/// The first service with the given id, as a copy. Refused with `NotFound`
/// where no service has the id.
pub fn query_service(services: &Vec<ServiceResponse>, id: u64) -> (r: Result<
    ServiceResponse,
    ServiceError,
>)
    ensures
        match found(views(services@), id) {
            Ok(service) => r is Ok && r->Ok_0@ == service,
            Err(e) => r is Err && r->Err_0 == e,
        },
{
    match position(services, id) {
        Some(i) => {
            let name = services[i].name.clone();
            let description = services[i].description.clone();
            Ok(ServiceResponse { id, name, description })
        },
        None => Err(ServiceError::NotFound),
    }
}

/// Answers a message that reads the registry.
pub fn query(services: &Vec<ServiceResponse>, msg: QueryMsg) -> (r: Result<
    ServiceResponse,
    ServiceError,
>)
    ensures
        match found(views(services@), msg->id) {
            Ok(service) => r is Ok && r->Ok_0@ == service,
            Err(e) => r is Err && r->Err_0 == e,
        },
{
    match msg {
        QueryMsg::GetService { id } => query_service(services, id),
    }
}

} // verus!
