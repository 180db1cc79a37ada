//! Transport-agnostic request dispatch core: route table, route registry,
//! install-once dispatch, middleware chain, RPC envelope, event publish and the
//! scope/receive/send protocol, each with a machine-checked contract.

pub mod application;
pub mod asgi;
pub mod assoc;
pub mod bridge;
pub mod bus;
pub mod container;
pub mod discovery;
pub mod dispatch;
pub mod domain;
pub mod error;
pub mod json;
pub mod modules;
pub mod naming;
pub mod openapi;
pub mod protocol;
pub mod publish;
pub mod registry;
pub mod request;
pub mod router;
pub mod rpc;
pub mod schema;
pub mod text;
pub mod transport;

pub use application::Application;
pub use asgi::{
    AsgiError, AsgiReceiveMessage, AsgiSendMessage, HttpScope, LifespanScope, Scope, WsScope,
};
pub use bus::EventBus;
pub use bridge::{pump_continues, pump_inbound, pump_outbound, PumpStep, SocketItem, WsFrame};
pub use container::{Container, ContainerError, Factory};
pub use discovery::{DiscoveryModule, ServiceDiscovery, StaticDiscovery};
pub use domain::{AggregateRoot, Command, DomainEvent, Entity, EventBusModule, Query, Repository};
pub use dispatch::{DispatchAction, DispatchEvent, DispatchRun, Dispatcher, Stage};
pub use error::CoreError;
pub use modules::{DomainModule, HttpModule};
pub use naming::{replace_template, snake_case, type_name_to_snake_case};
pub use protocol::{CallAction, CallEvent, CallStage, UrichAsgi};
pub use publish::{Publication, PublishStep};
pub use registry::{settle_validation, App, Invocation, Route, RpcMethod};
pub use request::{RequestContext, Response};
pub use router::{RouteId, Router};
pub use rpc::{RpcClient, RpcError, RpcModule, RpcRequest};
pub use schema::validate_json;
pub use transport::{
    host_port_from_env_and_args, HttpReceiveDriver, HttpSendDriver, LifespanReceiveDriver,
    LifespanSendDriver,
};
