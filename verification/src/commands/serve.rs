//! The `serve` command: serves a built document with the Swagger UI.

use vstd::prelude::*;
use crate::json::{Json, json_get, json_str};
use crate::wasm_codec::{z85_decode, z85_decoding, z85_encoding};
use vstd::string::*;

verus! {

/// Arguments of `serve`: the built document, the port to listen on, and a
/// wasm binary to attach to this session in place of the embedded one.
#[derive(Debug, Clone, PartialEq)]
pub struct ServeCmd {
    pub schema: String,
    pub port: u16,
    pub wasm: Option<String>,
}

/// What the server hands out under `/wasm`.
#[derive(Debug, Clone, PartialEq)]
pub struct RouterData {
    pub wasm_bytes: Option<Vec<u8>>,
}

/// The answer to a request: a status code and a body.
#[derive(Debug, Clone, PartialEq)]
pub struct WasmResponse {
    pub status: u16,
    pub body: Vec<u8>,
}

/// The `x-wasm` member of a document, if any, is a string.
pub open spec fn x_wasm_readable(spec: Json) -> bool {
    match json_get(spec, "x-wasm"@) {
        Some(v) => json_str(v) is Some,
        None => true,
    }
}

/// The wasm binary embedded in a document: the Z85 decoding of its `x-wasm`
/// member, `None` when there is none or it does not decode.
pub open spec fn spec_embedded_wasm(spec: Json) -> Option<Seq<u8>> {
    match json_get(spec, "x-wasm"@) {
        Some(v) => z85_decoding(json_str(v).unwrap()),
        None => None,
    }
}

/// The wasm binary embedded in a document. A document whose `x-wasm` is the
/// Z85 text of some bytes gives back exactly those bytes.
pub fn embedded_wasm(spec: &Json) -> (r: Option<Vec<u8>>)
    requires
        x_wasm_readable(*spec),
    ensures
        r is Some <==> spec_embedded_wasm(*spec) is Some,
        r matches Some(b) ==> spec_embedded_wasm(*spec) == Some(b@),
        forall|d: Seq<u8>| #![trigger z85_encoding(d)]
            (json_get(*spec, "x-wasm"@) matches Some(v) && json_str(v) == Some(z85_encoding(d)))
                ==> (r matches Some(b) && b@ == d),
{
    match spec.get("x-wasm") {
        Some(val) => z85_decode(val.as_str().unwrap()),
        None => None,
    }
}

impl ServeCmd {
    /// The data the server is set up with: the binary read from the file
    /// given with `--wasm` (`file_bytes`, `None` when it could not be read),
    /// else the binary embedded in the document.
    pub fn router_data(&self, file_bytes: Option<Vec<u8>>, spec: &Json) -> (r: RouterData)
        requires
            self.wasm is Some || x_wasm_readable(*spec),
        ensures
            self.wasm is Some ==> r.wasm_bytes == file_bytes,
            self.wasm is None ==> (r.wasm_bytes is Some <==> spec_embedded_wasm(*spec) is Some),
            self.wasm is None ==> (r.wasm_bytes matches Some(b) ==> spec_embedded_wasm(*spec) == Some(b@)),
            self.wasm is None ==> forall|d: Seq<u8>| #![trigger z85_encoding(d)]
                (json_get(*spec, "x-wasm"@) matches Some(v) && json_str(v) == Some(z85_encoding(d)))
                    ==> (r.wasm_bytes matches Some(b) && b@ == d),
    {
        let wasm_bytes = if self.wasm.is_some() {
            file_bytes
        } else {
            embedded_wasm(spec)
        };
        RouterData { wasm_bytes }
    }
}

/// The body sent when no wasm binary is available.
pub open spec fn missing_wasm_body() -> Seq<u8> {
    "Wasm bytecode not provided.".spec_bytes()
}

impl RouterData {
    /// The answer under `/wasm`: the binary with status 200, or status 404
    /// with a message when there is none.
    pub fn wasm_response(&self) -> (r: WasmResponse)
        ensures
            match self.wasm_bytes {
                Some(b) => r.status == 200 && r.body@ == b@,
                None => r.status == 404 && r.body@ == missing_wasm_body(),
            },
    {
        match &self.wasm_bytes {
            Some(b) => WasmResponse { status: 200, body: vstd::slice::slice_to_vec(b.as_slice()) },
            None => WasmResponse {
                status: 404,
                body: "Wasm bytecode not provided.".as_bytes_vec(),
            },
        }
    }
}

/// The static files of the Swagger UI, served under `/dist`.
#[derive(Debug, Clone, Copy, PartialEq, Eq, Structural)]
pub enum SwaggerAsset {
    Css,
    Bundle,
    EsBundle,
    Js,
    StandalonePreset,
}

impl SwaggerAsset {
    /// The path of the file under `/dist`.
    pub fn file_name(&self) -> (r: &'static str)
        ensures
            r@ == match self {
                SwaggerAsset::Css => "swagger-ui.css"@,
                SwaggerAsset::Bundle => "swagger-ui-bundle.js"@,
                SwaggerAsset::EsBundle => "swagger-ui-es-bundle.js"@,
                SwaggerAsset::Js => "swagger-ui.js"@,
                SwaggerAsset::StandalonePreset => "swagger-ui-standalone-preset.js"@,
            },
    {
        match self {
            SwaggerAsset::Css => "swagger-ui.css",
            SwaggerAsset::Bundle => "swagger-ui-bundle.js",
            SwaggerAsset::EsBundle => "swagger-ui-es-bundle.js",
            SwaggerAsset::Js => "swagger-ui.js",
            SwaggerAsset::StandalonePreset => "swagger-ui-standalone-preset.js",
        }
    }

    /// The content type the file is served with: CSS for the style sheet,
    /// JavaScript for the scripts.
    pub fn content_type(&self) -> (r: &'static str)
        ensures
            r@ == match self {
                SwaggerAsset::Css => "text/css"@,
                _ => "text/javascript"@,
            },
    {
        match self {
            SwaggerAsset::Css => "text/css",
            _ => "text/javascript",
        }
    }
}

} // verus!
