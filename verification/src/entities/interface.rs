//! Interfaces: named descriptions of a capability.
//!
//! An interface is tied to no node and no cluster: which of them offers it is
//! a matter of convention. Its two schemas are JSON texts.

use crate::utils::clock::Timestamp;
use crate::utils::ident::{fresh_id, is_uuid_text};
use vstd::prelude::*;

verus! {

#[derive(Debug, Clone, PartialEq, Eq, Hash)]
pub enum InterfaceType {
    QueryInterface,
    AuditInterface,
    ValidationInterface,
    ClusterInterface,
    ChannelInterface,
    Custom(String),
}

/// One method of an interface; `parameters` pairs a name with a type.
#[derive(Debug, Clone)]
pub struct MethodSignature {
    pub name: String,
    pub parameters: Vec<(String, String)>,
    pub return_type: String,
    pub description: Option<String>,
}

/// `properties` pairs a key with a JSON text.
#[derive(Debug, Clone)]
pub struct InterfaceMetadata {
    pub version: String,
    pub created_at: Timestamp,
    pub properties: Vec<(String, String)>,
}

#[derive(Debug, Clone)]
pub struct Interface {
    pub id: String,
    pub name: String,
    pub interface_type: InterfaceType,
    pub exposed_methods: Vec<MethodSignature>,
    pub input_schema: String,
    pub output_schema: String,
    pub metadata: InterfaceMetadata,
}

impl Interface {
    /// An interface as `new` leaves it, whatever its identity and age: no
    /// methods, the empty JSON object for both schemas, version 1.0.0 and no
    /// properties.
    pub open spec fn is_undescribed(&self) -> bool {
        &&& self.exposed_methods@.len() == 0
        &&& self.input_schema@ == "{}"@
        &&& self.output_schema@ == "{}"@
        &&& self.metadata.version@ == "1.0.0"@
        &&& self.metadata.properties@.len() == 0
    }

    /// An interface with a fresh random identifier, created now.
    pub fn new(name: String, interface_type: InterfaceType) -> (interface: Interface)
        ensures
            is_uuid_text(interface.id@),
            interface.name == name,
            interface.interface_type == interface_type,
            interface.is_undescribed(),
    {
        Self::with_id_at(fresh_id(), Timestamp::now(), name, interface_type)
    }

    /// An interface with the identifier and the time of creation given.
    pub fn with_id_at(
        id: String,
        created_at: Timestamp,
        name: String,
        interface_type: InterfaceType,
    ) -> (interface: Interface)
        ensures
            interface.id == id,
            interface.metadata.created_at == created_at,
            interface.name == name,
            interface.interface_type == interface_type,
            interface.is_undescribed(),
    {
        Interface {
            id,
            name,
            interface_type,
            exposed_methods: Vec::new(),
            input_schema: "{}".to_owned(),
            output_schema: "{}".to_owned(),
            metadata: InterfaceMetadata {
                version: "1.0.0".to_owned(),
                created_at,
                properties: Vec::new(),
            },
        }
    }

    /// Appends a method; the methods keep the order in which they were added.
    pub fn add_method(&mut self, method: MethodSignature)
        ensures
            final(self).exposed_methods@ == old(self).exposed_methods@.push(method),
            *final(self) == (Interface {
                exposed_methods: final(self).exposed_methods,
                ..*old(self)
            }),
    {
        self.exposed_methods.push(method);
    }

    pub fn with_schemas(self, input: String, output: String) -> (interface: Interface)
        ensures
            interface == (Interface { input_schema: input, output_schema: output, ..self }),
    {
        let mut interface = self;
        interface.input_schema = input;
        interface.output_schema = output;
        interface
    }
}

} // verus!
