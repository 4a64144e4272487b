//! A non-blocking HTTP client
pub mod client;
pub mod decimal;
pub mod headers;
pub mod message;
pub mod request;
pub mod response;

pub use client::{HttpClient, HttpClientSession, PendingHttpResponse, PersistentHttpConnection};
pub use message::{HttpRequest, IntoBody, Request, Response, Scheme, Uri, Version};
pub use request::Http1RequestSerializer;
pub use response::Http1ResponseDeserializer;
