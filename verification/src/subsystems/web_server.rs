//! The routes of the web server.

use vstd::prelude::*;

verus! {

/// The method of a request.
#[derive(Clone, Copy, Debug, PartialEq, Eq, Structural)]
pub enum Method {
    Get,
    Post,
}

/// What answers a request.
#[derive(Clone, Copy, Debug, PartialEq, Eq, Structural)]
pub enum Endpoint {
    AddItem,
    CartItems,
    CartItemsFromDb,
    CartsWithProducts,
    ChangePrice,
    ClearCart,
    Inventories,
    RemoveItem,
    SubmitCart,
    HealthCheck,
}

/// A route: a method, a path with the name of its one parameter in braces,
/// and the endpoint that answers.
#[derive(Clone, Copy, Debug, PartialEq, Eq)]
pub struct Route {
    pub method: Method,
    pub path: &'static str,
    pub endpoint: Endpoint,
}

/// The method of each endpoint: commands are posted, read models are got.
pub open spec fn method_of(endpoint: Endpoint) -> Method {
    match endpoint {
        Endpoint::AddItem => Method::Post,
        Endpoint::ChangePrice => Method::Post,
        Endpoint::ClearCart => Method::Post,
        Endpoint::RemoveItem => Method::Post,
        Endpoint::SubmitCart => Method::Post,
        _ => Method::Get,
    }
}

/// The path of each endpoint.
pub open spec fn path_of(endpoint: Endpoint) -> Seq<char> {
    match endpoint {
        Endpoint::AddItem => "/additem/{cart_id}"@,
        Endpoint::CartItems => "/{cart_id}/cartitems"@,
        Endpoint::CartItemsFromDb => "/{cart_id}/cartitemsfromdb"@,
        Endpoint::CartsWithProducts => "/cartswithproducts/{product_id}"@,
        Endpoint::ChangePrice => "/changeprice/{product_id}"@,
        Endpoint::ClearCart => "/clearcart/{cart_id}"@,
        Endpoint::Inventories => "/inventories/{product_id}"@,
        Endpoint::RemoveItem => "/removeitem/{cart_id}"@,
        Endpoint::SubmitCart => "/submitcart/{cart_id}"@,
        Endpoint::HealthCheck => "/healthcheck"@,
    }
}

/// The endpoints, in the order in which their routes are registered.
pub open spec fn endpoints() -> Seq<Endpoint> {
    seq![
        Endpoint::AddItem,
        Endpoint::CartItems,
        Endpoint::CartItemsFromDb,
        Endpoint::CartsWithProducts,
        Endpoint::ChangePrice,
        Endpoint::ClearCart,
        Endpoint::Inventories,
        Endpoint::RemoveItem,
        Endpoint::SubmitCart,
        Endpoint::HealthCheck,
    ]
}

fn route(method: Method, path: &'static str, endpoint: Endpoint) -> (r: Route)
    ensures
        r.method == method,
        r.path@ == path@,
        r.endpoint == endpoint,
{
    Route { method, path, endpoint }
}

/// The routes of the web server: one for each endpoint, with its method
/// and its path.
pub fn routes() -> (routes: Vec<Route>)
    ensures
        routes@.len() == endpoints().len(),
        forall|i: int|
            0 <= i < routes@.len() ==> {
                &&& (#[trigger] routes@[i]).endpoint == endpoints()[i]
                &&& routes@[i].method == method_of(endpoints()[i])
                &&& routes@[i].path@ == path_of(endpoints()[i])
            },
{
    let mut routes: Vec<Route> = Vec::new();
    routes.push(route(Method::Post, "/additem/{cart_id}", Endpoint::AddItem));
    routes.push(route(Method::Get, "/{cart_id}/cartitems", Endpoint::CartItems));
    routes.push(route(Method::Get, "/{cart_id}/cartitemsfromdb", Endpoint::CartItemsFromDb));
    routes.push(route(Method::Get, "/cartswithproducts/{product_id}", Endpoint::CartsWithProducts));
    routes.push(route(Method::Post, "/changeprice/{product_id}", Endpoint::ChangePrice));
    routes.push(route(Method::Post, "/clearcart/{cart_id}", Endpoint::ClearCart));
    routes.push(route(Method::Get, "/inventories/{product_id}", Endpoint::Inventories));
    routes.push(route(Method::Post, "/removeitem/{cart_id}", Endpoint::RemoveItem));
    routes.push(route(Method::Post, "/submitcart/{cart_id}", Endpoint::SubmitCart));
    routes.push(route(Method::Get, "/healthcheck", Endpoint::HealthCheck));
    routes
}

/// The answer to a health check.
pub fn health_check_endpoint() -> (answer: String)
    ensures
        answer@ == "Ok"@,
{
    "Ok".to_owned()
}

} // verus!
