//! The messages of the protocol, their names on the wire and their records.
//!
//! On the wire a message is a record of two members: `type`, one of fourteen
//! names, and `payload`, the record of the message itself. A member that is
//! `None` here is left out of the record, and a member that the record leaves
//! out, or gives as `null`, is `None` here.

use crate::error::Error;
use crate::protocol::json::{
    bytes_from_json, bytes_to_json, decode_bytes, decode_texts, encode_bytes, encode_texts, found,
    lemma_bytes_round_trip, lemma_lookup_empty, lemma_lookup_put, lemma_lookup_put_opt,
    lemma_texts_round_trip, lemma_whole_lists, lemma_whole_put, lemma_whole_put_opt, lookup,
    no_members, present, put, put_member, put_opt, same_text, texts, texts_from_json,
    texts_to_json, views, whole_members, whole_numbers, Json, JsonModel, Member, Number,
    NumberModel,
};
use vstd::prelude::*;

verus! {

/// The client's opening message.
#[derive(Debug, Clone)]
pub struct ClientHello {
    /// Unique client identifier.
    pub client_id: String,
    /// Name of the client for people to read.
    pub name: String,
    /// Protocol version.
    pub version: u32,
    /// Roles that the client offers, each as `<name>@v<n>`.
    pub supported_roles: Vec<String>,
    /// Facts about the device.
    pub device_info: Option<DeviceInfo>,
    /// What the client can do as a player; `player@v1_support` on the wire.
    pub player_v1_support: Option<PlayerV1Support>,
    /// What the client can do with artwork; `artwork@v1_support` on the wire.
    pub artwork_v1_support: Option<ArtworkV1Support>,
    /// What the client can do as a visualizer; `visualizer@v1_support` on the wire.
    pub visualizer_v1_support: Option<VisualizerV1Support>,
}

/// A `ClientHello` over plain values.
pub ghost struct ClientHelloModel {
    pub client_id: Seq<char>,
    pub name: Seq<char>,
    pub version: u32,
    pub supported_roles: Seq<Seq<char>>,
    pub device_info: Option<DeviceInfoModel>,
    pub player_v1_support: Option<PlayerV1SupportModel>,
    pub artwork_v1_support: Option<ArtworkV1SupportModel>,
    pub visualizer_v1_support: Option<VisualizerV1Support>,
}

impl View for ClientHello {
    type V = ClientHelloModel;

    open spec fn view(&self) -> ClientHelloModel {
        ClientHelloModel {
            client_id: self.client_id@,
            name: self.name@,
            version: self.version,
            supported_roles: texts(self.supported_roles@),
            device_info: match self.device_info {
                Some(x) => Some(x@),
                None => None,
            },
            player_v1_support: match self.player_v1_support {
                Some(x) => Some(x@),
                None => None,
            },
            artwork_v1_support: match self.artwork_v1_support {
                Some(x) => Some(x@),
                None => None,
            },
            visualizer_v1_support: self.visualizer_v1_support,
        }
    }
}

impl ClientHelloModel {
    /// The record on the wire: each member under its name, and an absent
    /// optional member left out.
    pub open spec fn encode(self) -> JsonModel {
        let m0 = Seq::<(Seq<char>, JsonModel)>::empty();
        let m1 = put(m0, "client_id"@, JsonModel::Str(self.client_id));
        let m2 = put(m1, "name"@, JsonModel::Str(self.name));
        let m3 = put(m2, "version"@, JsonModel::Int(self.version as int));
        let m4 = put(m3, "supported_roles"@, encode_texts(self.supported_roles));
        let m5 = put_opt(
            m4,
            "device_info"@,
            match self.device_info {
                Some(x) => Some(x.encode()),
                None => None,
            },
        );
        let m6 = put_opt(
            m5,
            "player@v1_support"@,
            match self.player_v1_support {
                Some(x) => Some(x.encode()),
                None => None,
            },
        );
        let m7 = put_opt(
            m6,
            "artwork@v1_support"@,
            match self.artwork_v1_support {
                Some(x) => Some(x.encode()),
                None => None,
            },
        );
        let m8 = put_opt(
            m7,
            "visualizer@v1_support"@,
            match self.visualizer_v1_support {
                Some(x) => Some(x.encode()),
                None => None,
            },
        );
        JsonModel::Object(m8)
    }

    /// The value that a record on the wire stands for. The record must be
    /// an object. A required member must be there and of its type. An
    /// optional member may be absent or `null`, and must else be of its
    /// type. Members of other names are passed over.
    pub open spec fn decode(j: JsonModel) -> Option<ClientHelloModel> {
        match j {
            JsonModel::Object(members) => {
                let client_id = match lookup(members, "client_id"@) {
                    Some(v) => v.as_str(),
                    None => None,
                };
                let name = match lookup(members, "name"@) {
                    Some(v) => v.as_str(),
                    None => None,
                };
                let version = match lookup(members, "version"@) {
                    Some(v) => v.as_u32(),
                    None => None,
                };
                let supported_roles = match lookup(members, "supported_roles"@) {
                    Some(v) => decode_texts(v),
                    None => None,
                };
                let device_info = match present(members, "device_info"@) {
                    Some(v) => found(DeviceInfoModel::decode(v)),
                    None => Some(None),
                };
                let player_v1_support = match present(members, "player@v1_support"@) {
                    Some(v) => found(PlayerV1SupportModel::decode(v)),
                    None => Some(None),
                };
                let artwork_v1_support = match present(members, "artwork@v1_support"@) {
                    Some(v) => found(ArtworkV1SupportModel::decode(v)),
                    None => Some(None),
                };
                let visualizer_v1_support = match present(members, "visualizer@v1_support"@) {
                    Some(v) => found(VisualizerV1Support::decode(v)),
                    None => Some(None),
                };
                let complete = client_id is Some
                    && name is Some
                    && version is Some
                    && supported_roles is Some
                    && device_info is Some
                    && player_v1_support is Some
                    && artwork_v1_support is Some
                    && visualizer_v1_support is Some;
                if complete {
                    Some(ClientHelloModel {
                        client_id: client_id->Some_0,
                        name: name->Some_0,
                        version: version->Some_0,
                        supported_roles: supported_roles->Some_0,
                        device_info: device_info->Some_0,
                        player_v1_support: player_v1_support->Some_0,
                        artwork_v1_support: artwork_v1_support->Some_0,
                        visualizer_v1_support: visualizer_v1_support->Some_0,
                    })
                } else {
                    None
                }
            },
            _ => None,
        }
    }

    /// Every value is read back from its record on the wire.
    pub proof fn lemma_round_trip(self)
        ensures
            Self::decode(self.encode()) == Some(self),
            self.encode() is Object,
    {
        reveal_strlit("client_id");
        reveal_strlit("name");
        reveal_strlit("version");
        reveal_strlit("supported_roles");
        reveal_strlit("device_info");
        reveal_strlit("player@v1_support");
        reveal_strlit("artwork@v1_support");
        reveal_strlit("visualizer@v1_support");
        assert("client_id"@.len() != "name"@.len());
        assert("client_id"@.len() != "version"@.len());
        assert("client_id"@.len() != "supported_roles"@.len());
        assert("client_id"@.len() != "device_info"@.len());
        assert("client_id"@.len() != "player@v1_support"@.len());
        assert("client_id"@.len() != "artwork@v1_support"@.len());
        assert("client_id"@.len() != "visualizer@v1_support"@.len());
        assert("name"@.len() != "version"@.len());
        assert("name"@.len() != "supported_roles"@.len());
        assert("name"@.len() != "device_info"@.len());
        assert("name"@.len() != "player@v1_support"@.len());
        assert("name"@.len() != "artwork@v1_support"@.len());
        assert("name"@.len() != "visualizer@v1_support"@.len());
        assert("version"@.len() != "supported_roles"@.len());
        assert("version"@.len() != "device_info"@.len());
        assert("version"@.len() != "player@v1_support"@.len());
        assert("version"@.len() != "artwork@v1_support"@.len());
        assert("version"@.len() != "visualizer@v1_support"@.len());
        assert("supported_roles"@.len() != "device_info"@.len());
        assert("supported_roles"@.len() != "player@v1_support"@.len());
        assert("supported_roles"@.len() != "artwork@v1_support"@.len());
        assert("supported_roles"@.len() != "visualizer@v1_support"@.len());
        assert("device_info"@.len() != "player@v1_support"@.len());
        assert("device_info"@.len() != "artwork@v1_support"@.len());
        assert("device_info"@.len() != "visualizer@v1_support"@.len());
        assert("player@v1_support"@.len() != "artwork@v1_support"@.len());
        assert("player@v1_support"@.len() != "visualizer@v1_support"@.len());
        assert("artwork@v1_support"@.len() != "visualizer@v1_support"@.len());
        let m0 = Seq::<(Seq<char>, JsonModel)>::empty();
        let v1 = JsonModel::Str(self.client_id);
        let m1 = put(m0, "client_id"@, v1);
        let v2 = JsonModel::Str(self.name);
        let m2 = put(m1, "name"@, v2);
        let v3 = JsonModel::Int(self.version as int);
        let m3 = put(m2, "version"@, v3);
        let v4 = encode_texts(self.supported_roles);
        let m4 = put(m3, "supported_roles"@, v4);
        let v5 = match self.device_info {
            Some(x) => Some(x.encode()),
            None => None,
        };
        let m5 = put_opt(m4, "device_info"@, v5);
        let v6 = match self.player_v1_support {
            Some(x) => Some(x.encode()),
            None => None,
        };
        let m6 = put_opt(m5, "player@v1_support"@, v6);
        let v7 = match self.artwork_v1_support {
            Some(x) => Some(x.encode()),
            None => None,
        };
        let m7 = put_opt(m6, "artwork@v1_support"@, v7);
        let v8 = match self.visualizer_v1_support {
            Some(x) => Some(x.encode()),
            None => None,
        };
        let m8 = put_opt(m7, "visualizer@v1_support"@, v8);
        assert(self.encode() == JsonModel::Object(m8));
        assert(lookup(m8, "client_id"@) == Some(v1)) by {
            lemma_lookup_put_opt(m7, "visualizer@v1_support"@, v8, "client_id"@);
            lemma_lookup_put_opt(m6, "artwork@v1_support"@, v7, "client_id"@);
            lemma_lookup_put_opt(m5, "player@v1_support"@, v6, "client_id"@);
            lemma_lookup_put_opt(m4, "device_info"@, v5, "client_id"@);
            lemma_lookup_put(m3, "supported_roles"@, v4, "client_id"@);
            lemma_lookup_put(m2, "version"@, v3, "client_id"@);
            lemma_lookup_put(m1, "name"@, v2, "client_id"@);
            lemma_lookup_put(m0, "client_id"@, v1, "client_id"@);
        }
        assert(lookup(m8, "name"@) == Some(v2)) by {
            lemma_lookup_put_opt(m7, "visualizer@v1_support"@, v8, "name"@);
            lemma_lookup_put_opt(m6, "artwork@v1_support"@, v7, "name"@);
            lemma_lookup_put_opt(m5, "player@v1_support"@, v6, "name"@);
            lemma_lookup_put_opt(m4, "device_info"@, v5, "name"@);
            lemma_lookup_put(m3, "supported_roles"@, v4, "name"@);
            lemma_lookup_put(m2, "version"@, v3, "name"@);
            lemma_lookup_put(m1, "name"@, v2, "name"@);
        }
        assert(lookup(m8, "version"@) == Some(v3)) by {
            lemma_lookup_put_opt(m7, "visualizer@v1_support"@, v8, "version"@);
            lemma_lookup_put_opt(m6, "artwork@v1_support"@, v7, "version"@);
            lemma_lookup_put_opt(m5, "player@v1_support"@, v6, "version"@);
            lemma_lookup_put_opt(m4, "device_info"@, v5, "version"@);
            lemma_lookup_put(m3, "supported_roles"@, v4, "version"@);
            lemma_lookup_put(m2, "version"@, v3, "version"@);
        }
        assert(lookup(m8, "supported_roles"@) == Some(v4)) by {
            lemma_lookup_put_opt(m7, "visualizer@v1_support"@, v8, "supported_roles"@);
            lemma_lookup_put_opt(m6, "artwork@v1_support"@, v7, "supported_roles"@);
            lemma_lookup_put_opt(m5, "player@v1_support"@, v6, "supported_roles"@);
            lemma_lookup_put_opt(m4, "device_info"@, v5, "supported_roles"@);
            lemma_lookup_put(m3, "supported_roles"@, v4, "supported_roles"@);
        }
        assert(lookup(m8, "device_info"@) == v5) by {
            lemma_lookup_put_opt(m7, "visualizer@v1_support"@, v8, "device_info"@);
            lemma_lookup_put_opt(m6, "artwork@v1_support"@, v7, "device_info"@);
            lemma_lookup_put_opt(m5, "player@v1_support"@, v6, "device_info"@);
            lemma_lookup_put_opt(m4, "device_info"@, v5, "device_info"@);
            lemma_lookup_put(m3, "supported_roles"@, v4, "device_info"@);
            lemma_lookup_put(m2, "version"@, v3, "device_info"@);
            lemma_lookup_put(m1, "name"@, v2, "device_info"@);
            lemma_lookup_put(m0, "client_id"@, v1, "device_info"@);
        }
        assert(lookup(m8, "player@v1_support"@) == v6) by {
            lemma_lookup_put_opt(m7, "visualizer@v1_support"@, v8, "player@v1_support"@);
            lemma_lookup_put_opt(m6, "artwork@v1_support"@, v7, "player@v1_support"@);
            lemma_lookup_put_opt(m5, "player@v1_support"@, v6, "player@v1_support"@);
            lemma_lookup_put_opt(m4, "device_info"@, v5, "player@v1_support"@);
            lemma_lookup_put(m3, "supported_roles"@, v4, "player@v1_support"@);
            lemma_lookup_put(m2, "version"@, v3, "player@v1_support"@);
            lemma_lookup_put(m1, "name"@, v2, "player@v1_support"@);
            lemma_lookup_put(m0, "client_id"@, v1, "player@v1_support"@);
        }
        assert(lookup(m8, "artwork@v1_support"@) == v7) by {
            lemma_lookup_put_opt(m7, "visualizer@v1_support"@, v8, "artwork@v1_support"@);
            lemma_lookup_put_opt(m6, "artwork@v1_support"@, v7, "artwork@v1_support"@);
            lemma_lookup_put_opt(m5, "player@v1_support"@, v6, "artwork@v1_support"@);
            lemma_lookup_put_opt(m4, "device_info"@, v5, "artwork@v1_support"@);
            lemma_lookup_put(m3, "supported_roles"@, v4, "artwork@v1_support"@);
            lemma_lookup_put(m2, "version"@, v3, "artwork@v1_support"@);
            lemma_lookup_put(m1, "name"@, v2, "artwork@v1_support"@);
            lemma_lookup_put(m0, "client_id"@, v1, "artwork@v1_support"@);
        }
        assert(lookup(m8, "visualizer@v1_support"@) == v8) by {
            lemma_lookup_put_opt(m7, "visualizer@v1_support"@, v8, "visualizer@v1_support"@);
            lemma_lookup_put_opt(m6, "artwork@v1_support"@, v7, "visualizer@v1_support"@);
            lemma_lookup_put_opt(m5, "player@v1_support"@, v6, "visualizer@v1_support"@);
            lemma_lookup_put_opt(m4, "device_info"@, v5, "visualizer@v1_support"@);
            lemma_lookup_put(m3, "supported_roles"@, v4, "visualizer@v1_support"@);
            lemma_lookup_put(m2, "version"@, v3, "visualizer@v1_support"@);
            lemma_lookup_put(m1, "name"@, v2, "visualizer@v1_support"@);
            lemma_lookup_put(m0, "client_id"@, v1, "visualizer@v1_support"@);
        }
        lemma_texts_round_trip(self.supported_roles);
        if self.device_info is Some {
            self.device_info->Some_0.lemma_round_trip();
        }
        if self.player_v1_support is Some {
            self.player_v1_support->Some_0.lemma_round_trip();
        }
        if self.artwork_v1_support is Some {
            self.artwork_v1_support->Some_0.lemma_round_trip();
        }
        if self.visualizer_v1_support is Some {
            self.visualizer_v1_support->Some_0.lemma_round_trip();
        }
    }

    /// The record holds whole numbers only.
    pub proof fn lemma_whole(self)
        ensures
            whole_numbers(self.encode()),
    {
        let m0 = Seq::<(Seq<char>, JsonModel)>::empty();
        assert(whole_members(m0));
        let v1 = JsonModel::Str(self.client_id);
        lemma_whole_put(m0, "client_id"@, v1);
        let m1 = put(m0, "client_id"@, v1);
        let v2 = JsonModel::Str(self.name);
        lemma_whole_put(m1, "name"@, v2);
        let m2 = put(m1, "name"@, v2);
        let v3 = JsonModel::Int(self.version as int);
        lemma_whole_put(m2, "version"@, v3);
        let m3 = put(m2, "version"@, v3);
        lemma_whole_lists(self.supported_roles, Seq::<u8>::empty());
        let v4 = encode_texts(self.supported_roles);
        lemma_whole_put(m3, "supported_roles"@, v4);
        let m4 = put(m3, "supported_roles"@, v4);
        if self.device_info is Some {
            self.device_info->Some_0.lemma_whole();
        }
        let v5 = match self.device_info {
            Some(x) => Some(x.encode()),
            None => None,
        };
        lemma_whole_put_opt(m4, "device_info"@, v5);
        let m5 = put_opt(m4, "device_info"@, v5);
        if self.player_v1_support is Some {
            self.player_v1_support->Some_0.lemma_whole();
        }
        let v6 = match self.player_v1_support {
            Some(x) => Some(x.encode()),
            None => None,
        };
        lemma_whole_put_opt(m5, "player@v1_support"@, v6);
        let m6 = put_opt(m5, "player@v1_support"@, v6);
        if self.artwork_v1_support is Some {
            self.artwork_v1_support->Some_0.lemma_whole();
        }
        let v7 = match self.artwork_v1_support {
            Some(x) => Some(x.encode()),
            None => None,
        };
        lemma_whole_put_opt(m6, "artwork@v1_support"@, v7);
        let m7 = put_opt(m6, "artwork@v1_support"@, v7);
        if self.visualizer_v1_support is Some {
            self.visualizer_v1_support->Some_0.lemma_whole();
        }
        let v8 = match self.visualizer_v1_support {
            Some(x) => Some(x.encode()),
            None => None,
        };
        lemma_whole_put_opt(m7, "visualizer@v1_support"@, v8);
        let m8 = put_opt(m7, "visualizer@v1_support"@, v8);
        assert(self.encode() == JsonModel::Object(m8));
    }
}

impl ClientHello {
    /// This value as its record on the wire.
    pub fn to_json(&self) -> (j: Json)
        ensures
            j@ == self@.encode(),
    {
        let mut members: Vec<Member> = no_members();
        put_member(&mut members, "client_id", Json::Str(self.client_id.clone()));
        put_member(&mut members, "name", Json::Str(self.name.clone()));
        put_member(&mut members, "version", Json::Int(self.version as i64));
        put_member(&mut members, "supported_roles", texts_to_json(&self.supported_roles));
        match &self.device_info {
            Some(x) => {
                put_member(&mut members, "device_info", x.to_json());
            },
            None => {},
        }
        match &self.player_v1_support {
            Some(x) => {
                put_member(&mut members, "player@v1_support", x.to_json());
            },
            None => {},
        }
        match &self.artwork_v1_support {
            Some(x) => {
                put_member(&mut members, "artwork@v1_support", x.to_json());
            },
            None => {},
        }
        match &self.visualizer_v1_support {
            Some(x) => {
                put_member(&mut members, "visualizer@v1_support", x.to_json());
            },
            None => {},
        }
        Json::Object(members)
    }

    /// Reads a value from its record on the wire; `None` where the record
    /// stands for none.
    pub fn from_json(j: &Json) -> (r: Option<ClientHello>)
        ensures
            match r {
                Some(value) => ClientHelloModel::decode(j@) == Some(value@),
                None => ClientHelloModel::decode(j@) is None,
            },
    {
        if !j.is_object() {
            return None;
        }
        let client_id: String = match j.get("client_id") {
            Some(v) => match v.as_string() {
                Some(x) => x,
                None => {
                    return None;
                },
            },
            None => {
                return None;
            },
        };
        let name: String = match j.get("name") {
            Some(v) => match v.as_string() {
                Some(x) => x,
                None => {
                    return None;
                },
            },
            None => {
                return None;
            },
        };
        let version: u32 = match j.get("version") {
            Some(v) => match v.as_u32() {
                Some(x) => x,
                None => {
                    return None;
                },
            },
            None => {
                return None;
            },
        };
        let supported_roles: Vec<String> = match j.get("supported_roles") {
            Some(v) => match texts_from_json(v) {
                Some(x) => x,
                None => {
                    return None;
                },
            },
            None => {
                return None;
            },
        };
        let device_info: Option<DeviceInfo> = match j.get_present("device_info") {
            Some(v) => match DeviceInfo::from_json(v) {
                Some(x) => Some(x),
                None => {
                    return None;
                },
            },
            None => None,
        };
        let player_v1_support: Option<PlayerV1Support> = match j.get_present("player@v1_support") {
            Some(v) => match PlayerV1Support::from_json(v) {
                Some(x) => Some(x),
                None => {
                    return None;
                },
            },
            None => None,
        };
        let artwork_v1_support: Option<ArtworkV1Support> = match j.get_present("artwork@v1_support") {
            Some(v) => match ArtworkV1Support::from_json(v) {
                Some(x) => Some(x),
                None => {
                    return None;
                },
            },
            None => None,
        };
        let visualizer_v1_support: Option<VisualizerV1Support> = match j.get_present("visualizer@v1_support") {
            Some(v) => match VisualizerV1Support::from_json(v) {
                Some(x) => Some(x),
                None => {
                    return None;
                },
            },
            None => None,
        };
        Some(ClientHello {
            client_id,
            name,
            version,
            supported_roles,
            device_info,
            player_v1_support,
            artwork_v1_support,
            visualizer_v1_support,
        })
    }
}

/// Facts about the device.
#[derive(Debug, Clone)]
pub struct DeviceInfo {
    /// Name of the product.
    pub product_name: Option<String>,
    /// Name of the maker.
    pub manufacturer: Option<String>,
    /// Version of the software.
    pub software_version: Option<String>,
}

/// A `DeviceInfo` over plain values.
pub ghost struct DeviceInfoModel {
    pub product_name: Option<Seq<char>>,
    pub manufacturer: Option<Seq<char>>,
    pub software_version: Option<Seq<char>>,
}

impl View for DeviceInfo {
    type V = DeviceInfoModel;

    open spec fn view(&self) -> DeviceInfoModel {
        DeviceInfoModel {
            product_name: match self.product_name {
                Some(x) => Some(x@),
                None => None,
            },
            manufacturer: match self.manufacturer {
                Some(x) => Some(x@),
                None => None,
            },
            software_version: match self.software_version {
                Some(x) => Some(x@),
                None => None,
            },
        }
    }
}

impl DeviceInfoModel {
    /// The record on the wire: each member under its name, and an absent
    /// optional member left out.
    pub open spec fn encode(self) -> JsonModel {
        let m0 = Seq::<(Seq<char>, JsonModel)>::empty();
        let m1 = put_opt(
            m0,
            "product_name"@,
            match self.product_name {
                Some(x) => Some(JsonModel::Str(x)),
                None => None,
            },
        );
        let m2 = put_opt(
            m1,
            "manufacturer"@,
            match self.manufacturer {
                Some(x) => Some(JsonModel::Str(x)),
                None => None,
            },
        );
        let m3 = put_opt(
            m2,
            "software_version"@,
            match self.software_version {
                Some(x) => Some(JsonModel::Str(x)),
                None => None,
            },
        );
        JsonModel::Object(m3)
    }

    /// The value that a record on the wire stands for. The record must be
    /// an object. A required member must be there and of its type. An
    /// optional member may be absent or `null`, and must else be of its
    /// type. Members of other names are passed over.
    pub open spec fn decode(j: JsonModel) -> Option<DeviceInfoModel> {
        match j {
            JsonModel::Object(members) => {
                let product_name = match present(members, "product_name"@) {
                    Some(v) => found(v.as_str()),
                    None => Some(None),
                };
                let manufacturer = match present(members, "manufacturer"@) {
                    Some(v) => found(v.as_str()),
                    None => Some(None),
                };
                let software_version = match present(members, "software_version"@) {
                    Some(v) => found(v.as_str()),
                    None => Some(None),
                };
                let complete = product_name is Some
                    && manufacturer is Some
                    && software_version is Some;
                if complete {
                    Some(DeviceInfoModel {
                        product_name: product_name->Some_0,
                        manufacturer: manufacturer->Some_0,
                        software_version: software_version->Some_0,
                    })
                } else {
                    None
                }
            },
            _ => None,
        }
    }

    /// Every value is read back from its record on the wire.
    pub proof fn lemma_round_trip(self)
        ensures
            Self::decode(self.encode()) == Some(self),
            self.encode() is Object,
    {
        reveal_strlit("product_name");
        reveal_strlit("manufacturer");
        reveal_strlit("software_version");
        assert("product_name"@[0] != "manufacturer"@[0]);
        assert("product_name"@.len() != "software_version"@.len());
        assert("manufacturer"@.len() != "software_version"@.len());
        let m0 = Seq::<(Seq<char>, JsonModel)>::empty();
        let v1 = match self.product_name {
            Some(x) => Some(JsonModel::Str(x)),
            None => None,
        };
        let m1 = put_opt(m0, "product_name"@, v1);
        let v2 = match self.manufacturer {
            Some(x) => Some(JsonModel::Str(x)),
            None => None,
        };
        let m2 = put_opt(m1, "manufacturer"@, v2);
        let v3 = match self.software_version {
            Some(x) => Some(JsonModel::Str(x)),
            None => None,
        };
        let m3 = put_opt(m2, "software_version"@, v3);
        assert(self.encode() == JsonModel::Object(m3));
        assert(lookup(m3, "product_name"@) == v1) by {
            lemma_lookup_put_opt(m2, "software_version"@, v3, "product_name"@);
            lemma_lookup_put_opt(m1, "manufacturer"@, v2, "product_name"@);
            lemma_lookup_put_opt(m0, "product_name"@, v1, "product_name"@);
        }
        assert(lookup(m3, "manufacturer"@) == v2) by {
            lemma_lookup_put_opt(m2, "software_version"@, v3, "manufacturer"@);
            lemma_lookup_put_opt(m1, "manufacturer"@, v2, "manufacturer"@);
            lemma_lookup_put_opt(m0, "product_name"@, v1, "manufacturer"@);
        }
        assert(lookup(m3, "software_version"@) == v3) by {
            lemma_lookup_put_opt(m2, "software_version"@, v3, "software_version"@);
            lemma_lookup_put_opt(m1, "manufacturer"@, v2, "software_version"@);
            lemma_lookup_put_opt(m0, "product_name"@, v1, "software_version"@);
        }
    }

    /// The record holds whole numbers only.
    pub proof fn lemma_whole(self)
        ensures
            whole_numbers(self.encode()),
    {
        let m0 = Seq::<(Seq<char>, JsonModel)>::empty();
        assert(whole_members(m0));
        let v1 = match self.product_name {
            Some(x) => Some(JsonModel::Str(x)),
            None => None,
        };
        lemma_whole_put_opt(m0, "product_name"@, v1);
        let m1 = put_opt(m0, "product_name"@, v1);
        let v2 = match self.manufacturer {
            Some(x) => Some(JsonModel::Str(x)),
            None => None,
        };
        lemma_whole_put_opt(m1, "manufacturer"@, v2);
        let m2 = put_opt(m1, "manufacturer"@, v2);
        let v3 = match self.software_version {
            Some(x) => Some(JsonModel::Str(x)),
            None => None,
        };
        lemma_whole_put_opt(m2, "software_version"@, v3);
        let m3 = put_opt(m2, "software_version"@, v3);
        assert(self.encode() == JsonModel::Object(m3));
    }
}

impl DeviceInfo {
    /// This value as its record on the wire.
    pub fn to_json(&self) -> (j: Json)
        ensures
            j@ == self@.encode(),
    {
        let mut members: Vec<Member> = no_members();
        match &self.product_name {
            Some(x) => {
                put_member(&mut members, "product_name", Json::Str(x.clone()));
            },
            None => {},
        }
        match &self.manufacturer {
            Some(x) => {
                put_member(&mut members, "manufacturer", Json::Str(x.clone()));
            },
            None => {},
        }
        match &self.software_version {
            Some(x) => {
                put_member(&mut members, "software_version", Json::Str(x.clone()));
            },
            None => {},
        }
        Json::Object(members)
    }

    /// Reads a value from its record on the wire; `None` where the record
    /// stands for none.
    pub fn from_json(j: &Json) -> (r: Option<DeviceInfo>)
        ensures
            match r {
                Some(value) => DeviceInfoModel::decode(j@) == Some(value@),
                None => DeviceInfoModel::decode(j@) is None,
            },
    {
        if !j.is_object() {
            return None;
        }
        let product_name: Option<String> = match j.get_present("product_name") {
            Some(v) => match v.as_string() {
                Some(x) => Some(x),
                None => {
                    return None;
                },
            },
            None => None,
        };
        let manufacturer: Option<String> = match j.get_present("manufacturer") {
            Some(v) => match v.as_string() {
                Some(x) => Some(x),
                None => {
                    return None;
                },
            },
            None => None,
        };
        let software_version: Option<String> = match j.get_present("software_version") {
            Some(v) => match v.as_string() {
                Some(x) => Some(x),
                None => {
                    return None;
                },
            },
            None => None,
        };
        Some(DeviceInfo { product_name, manufacturer, software_version })
    }
}

/// What a client can do in the role `player@v1`.
#[derive(Debug, Clone)]
pub struct PlayerV1Support {
    /// Audio formats that the client plays.
    pub supported_formats: Vec<AudioFormatSpec>,
    /// Number of chunks that the client can hold.
    pub buffer_capacity: u32,
    /// Playback commands that the client obeys.
    pub supported_commands: Vec<String>,
}

/// A `PlayerV1Support` over plain values.
pub ghost struct PlayerV1SupportModel {
    pub supported_formats: Seq<AudioFormatSpecModel>,
    pub buffer_capacity: u32,
    pub supported_commands: Seq<Seq<char>>,
}

impl View for PlayerV1Support {
    type V = PlayerV1SupportModel;

    open spec fn view(&self) -> PlayerV1SupportModel {
        PlayerV1SupportModel {
            supported_formats: AudioFormatSpec::models(self.supported_formats@),
            buffer_capacity: self.buffer_capacity,
            supported_commands: texts(self.supported_commands@),
        }
    }
}

impl PlayerV1SupportModel {
    /// The record on the wire: each member under its name, and an absent
    /// optional member left out.
    pub open spec fn encode(self) -> JsonModel {
        let m0 = Seq::<(Seq<char>, JsonModel)>::empty();
        let m1 = put(m0, "supported_formats"@, AudioFormatSpecModel::encode_list(self.supported_formats));
        let m2 = put(m1, "buffer_capacity"@, JsonModel::Int(self.buffer_capacity as int));
        let m3 = put(m2, "supported_commands"@, encode_texts(self.supported_commands));
        JsonModel::Object(m3)
    }

    /// The value that a record on the wire stands for. The record must be
    /// an object. A required member must be there and of its type. An
    /// optional member may be absent or `null`, and must else be of its
    /// type. Members of other names are passed over.
    pub open spec fn decode(j: JsonModel) -> Option<PlayerV1SupportModel> {
        match j {
            JsonModel::Object(members) => {
                let supported_formats = match lookup(members, "supported_formats"@) {
                    Some(v) => AudioFormatSpecModel::decode_list(v),
                    None => None,
                };
                let buffer_capacity = match lookup(members, "buffer_capacity"@) {
                    Some(v) => v.as_u32(),
                    None => None,
                };
                let supported_commands = match lookup(members, "supported_commands"@) {
                    Some(v) => decode_texts(v),
                    None => None,
                };
                let complete = supported_formats is Some
                    && buffer_capacity is Some
                    && supported_commands is Some;
                if complete {
                    Some(PlayerV1SupportModel {
                        supported_formats: supported_formats->Some_0,
                        buffer_capacity: buffer_capacity->Some_0,
                        supported_commands: supported_commands->Some_0,
                    })
                } else {
                    None
                }
            },
            _ => None,
        }
    }

    /// Every value is read back from its record on the wire.
    pub proof fn lemma_round_trip(self)
        ensures
            Self::decode(self.encode()) == Some(self),
            self.encode() is Object,
    {
        reveal_strlit("supported_formats");
        reveal_strlit("buffer_capacity");
        reveal_strlit("supported_commands");
        assert("supported_formats"@.len() != "buffer_capacity"@.len());
        assert("supported_formats"@.len() != "supported_commands"@.len());
        assert("buffer_capacity"@.len() != "supported_commands"@.len());
        let m0 = Seq::<(Seq<char>, JsonModel)>::empty();
        let v1 = AudioFormatSpecModel::encode_list(self.supported_formats);
        let m1 = put(m0, "supported_formats"@, v1);
        let v2 = JsonModel::Int(self.buffer_capacity as int);
        let m2 = put(m1, "buffer_capacity"@, v2);
        let v3 = encode_texts(self.supported_commands);
        let m3 = put(m2, "supported_commands"@, v3);
        assert(self.encode() == JsonModel::Object(m3));
        assert(lookup(m3, "supported_formats"@) == Some(v1)) by {
            lemma_lookup_put(m2, "supported_commands"@, v3, "supported_formats"@);
            lemma_lookup_put(m1, "buffer_capacity"@, v2, "supported_formats"@);
            lemma_lookup_put(m0, "supported_formats"@, v1, "supported_formats"@);
        }
        assert(lookup(m3, "buffer_capacity"@) == Some(v2)) by {
            lemma_lookup_put(m2, "supported_commands"@, v3, "buffer_capacity"@);
            lemma_lookup_put(m1, "buffer_capacity"@, v2, "buffer_capacity"@);
        }
        assert(lookup(m3, "supported_commands"@) == Some(v3)) by {
            lemma_lookup_put(m2, "supported_commands"@, v3, "supported_commands"@);
        }
        AudioFormatSpecModel::lemma_list_round_trip(self.supported_formats);
        lemma_texts_round_trip(self.supported_commands);
    }

    /// The record holds whole numbers only.
    pub proof fn lemma_whole(self)
        ensures
            whole_numbers(self.encode()),
    {
        let m0 = Seq::<(Seq<char>, JsonModel)>::empty();
        assert(whole_members(m0));
        AudioFormatSpecModel::lemma_whole_list(self.supported_formats);
        let v1 = AudioFormatSpecModel::encode_list(self.supported_formats);
        lemma_whole_put(m0, "supported_formats"@, v1);
        let m1 = put(m0, "supported_formats"@, v1);
        let v2 = JsonModel::Int(self.buffer_capacity as int);
        lemma_whole_put(m1, "buffer_capacity"@, v2);
        let m2 = put(m1, "buffer_capacity"@, v2);
        lemma_whole_lists(self.supported_commands, Seq::<u8>::empty());
        let v3 = encode_texts(self.supported_commands);
        lemma_whole_put(m2, "supported_commands"@, v3);
        let m3 = put(m2, "supported_commands"@, v3);
        assert(self.encode() == JsonModel::Object(m3));
    }
}

impl PlayerV1Support {
    /// This value as its record on the wire.
    pub fn to_json(&self) -> (j: Json)
        ensures
            j@ == self@.encode(),
    {
        let mut members: Vec<Member> = no_members();
        put_member(&mut members, "supported_formats", AudioFormatSpec::list_to_json(&self.supported_formats));
        put_member(&mut members, "buffer_capacity", Json::Int(self.buffer_capacity as i64));
        put_member(&mut members, "supported_commands", texts_to_json(&self.supported_commands));
        Json::Object(members)
    }

    /// Reads a value from its record on the wire; `None` where the record
    /// stands for none.
    pub fn from_json(j: &Json) -> (r: Option<PlayerV1Support>)
        ensures
            match r {
                Some(value) => PlayerV1SupportModel::decode(j@) == Some(value@),
                None => PlayerV1SupportModel::decode(j@) is None,
            },
    {
        if !j.is_object() {
            return None;
        }
        let supported_formats: Vec<AudioFormatSpec> = match j.get("supported_formats") {
            Some(v) => match AudioFormatSpec::list_from_json(v) {
                Some(x) => x,
                None => {
                    return None;
                },
            },
            None => {
                return None;
            },
        };
        let buffer_capacity: u32 = match j.get("buffer_capacity") {
            Some(v) => match v.as_u32() {
                Some(x) => x,
                None => {
                    return None;
                },
            },
            None => {
                return None;
            },
        };
        let supported_commands: Vec<String> = match j.get("supported_commands") {
            Some(v) => match texts_from_json(v) {
                Some(x) => x,
                None => {
                    return None;
                },
            },
            None => {
                return None;
            },
        };
        Some(PlayerV1Support { supported_formats, buffer_capacity, supported_commands })
    }
}

/// One audio format that a client plays.
#[derive(Debug, Clone)]
pub struct AudioFormatSpec {
    /// Name of the codec.
    pub codec: String,
    /// Number of channels.
    pub channels: u8,
    /// Sample rate in Hz.
    pub sample_rate: u32,
    /// Bits per sample.
    pub bit_depth: u8,
}

/// A `AudioFormatSpec` over plain values.
pub ghost struct AudioFormatSpecModel {
    pub codec: Seq<char>,
    pub channels: u8,
    pub sample_rate: u32,
    pub bit_depth: u8,
}

impl View for AudioFormatSpec {
    type V = AudioFormatSpecModel;

    open spec fn view(&self) -> AudioFormatSpecModel {
        AudioFormatSpecModel {
            codec: self.codec@,
            channels: self.channels,
            sample_rate: self.sample_rate,
            bit_depth: self.bit_depth,
        }
    }
}

impl AudioFormatSpecModel {
    /// The record on the wire: each member under its name, and an absent
    /// optional member left out.
    pub open spec fn encode(self) -> JsonModel {
        let m0 = Seq::<(Seq<char>, JsonModel)>::empty();
        let m1 = put(m0, "codec"@, JsonModel::Str(self.codec));
        let m2 = put(m1, "channels"@, JsonModel::Int(self.channels as int));
        let m3 = put(m2, "sample_rate"@, JsonModel::Int(self.sample_rate as int));
        let m4 = put(m3, "bit_depth"@, JsonModel::Int(self.bit_depth as int));
        JsonModel::Object(m4)
    }

    /// The value that a record on the wire stands for. The record must be
    /// an object. A required member must be there and of its type. An
    /// optional member may be absent or `null`, and must else be of its
    /// type. Members of other names are passed over.
    pub open spec fn decode(j: JsonModel) -> Option<AudioFormatSpecModel> {
        match j {
            JsonModel::Object(members) => {
                let codec = match lookup(members, "codec"@) {
                    Some(v) => v.as_str(),
                    None => None,
                };
                let channels = match lookup(members, "channels"@) {
                    Some(v) => v.as_u8(),
                    None => None,
                };
                let sample_rate = match lookup(members, "sample_rate"@) {
                    Some(v) => v.as_u32(),
                    None => None,
                };
                let bit_depth = match lookup(members, "bit_depth"@) {
                    Some(v) => v.as_u8(),
                    None => None,
                };
                let complete = codec is Some
                    && channels is Some
                    && sample_rate is Some
                    && bit_depth is Some;
                if complete {
                    Some(AudioFormatSpecModel {
                        codec: codec->Some_0,
                        channels: channels->Some_0,
                        sample_rate: sample_rate->Some_0,
                        bit_depth: bit_depth->Some_0,
                    })
                } else {
                    None
                }
            },
            _ => None,
        }
    }

    /// Every value is read back from its record on the wire.
    pub proof fn lemma_round_trip(self)
        ensures
            Self::decode(self.encode()) == Some(self),
            self.encode() is Object,
    {
        reveal_strlit("codec");
        reveal_strlit("channels");
        reveal_strlit("sample_rate");
        reveal_strlit("bit_depth");
        assert("codec"@.len() != "channels"@.len());
        assert("codec"@.len() != "sample_rate"@.len());
        assert("codec"@.len() != "bit_depth"@.len());
        assert("channels"@.len() != "sample_rate"@.len());
        assert("channels"@.len() != "bit_depth"@.len());
        assert("sample_rate"@.len() != "bit_depth"@.len());
        let m0 = Seq::<(Seq<char>, JsonModel)>::empty();
        let v1 = JsonModel::Str(self.codec);
        let m1 = put(m0, "codec"@, v1);
        let v2 = JsonModel::Int(self.channels as int);
        let m2 = put(m1, "channels"@, v2);
        let v3 = JsonModel::Int(self.sample_rate as int);
        let m3 = put(m2, "sample_rate"@, v3);
        let v4 = JsonModel::Int(self.bit_depth as int);
        let m4 = put(m3, "bit_depth"@, v4);
        assert(self.encode() == JsonModel::Object(m4));
        assert(lookup(m4, "codec"@) == Some(v1)) by {
            lemma_lookup_put(m3, "bit_depth"@, v4, "codec"@);
            lemma_lookup_put(m2, "sample_rate"@, v3, "codec"@);
            lemma_lookup_put(m1, "channels"@, v2, "codec"@);
            lemma_lookup_put(m0, "codec"@, v1, "codec"@);
        }
        assert(lookup(m4, "channels"@) == Some(v2)) by {
            lemma_lookup_put(m3, "bit_depth"@, v4, "channels"@);
            lemma_lookup_put(m2, "sample_rate"@, v3, "channels"@);
            lemma_lookup_put(m1, "channels"@, v2, "channels"@);
        }
        assert(lookup(m4, "sample_rate"@) == Some(v3)) by {
            lemma_lookup_put(m3, "bit_depth"@, v4, "sample_rate"@);
            lemma_lookup_put(m2, "sample_rate"@, v3, "sample_rate"@);
        }
        assert(lookup(m4, "bit_depth"@) == Some(v4)) by {
            lemma_lookup_put(m3, "bit_depth"@, v4, "bit_depth"@);
        }
    }

    /// The record holds whole numbers only.
    pub proof fn lemma_whole(self)
        ensures
            whole_numbers(self.encode()),
    {
        let m0 = Seq::<(Seq<char>, JsonModel)>::empty();
        assert(whole_members(m0));
        let v1 = JsonModel::Str(self.codec);
        lemma_whole_put(m0, "codec"@, v1);
        let m1 = put(m0, "codec"@, v1);
        let v2 = JsonModel::Int(self.channels as int);
        lemma_whole_put(m1, "channels"@, v2);
        let m2 = put(m1, "channels"@, v2);
        let v3 = JsonModel::Int(self.sample_rate as int);
        lemma_whole_put(m2, "sample_rate"@, v3);
        let m3 = put(m2, "sample_rate"@, v3);
        let v4 = JsonModel::Int(self.bit_depth as int);
        lemma_whole_put(m3, "bit_depth"@, v4);
        let m4 = put(m3, "bit_depth"@, v4);
        assert(self.encode() == JsonModel::Object(m4));
    }

    /// A list of values holds whole numbers only.
    pub proof fn lemma_whole_list(items: Seq<AudioFormatSpecModel>)
        ensures
            whole_numbers(Self::encode_list(items)),
    {
        let encoded = Seq::new(items.len(), |i: int| items[i].encode());
        assert forall|i: int| 0 <= i < encoded.len() implies whole_numbers(
            #[trigger] encoded[i],
        ) by {
            items[i].lemma_whole();
        }
    }

    /// A list of values as a JSON value.
    pub open spec fn encode_list(items: Seq<AudioFormatSpecModel>) -> JsonModel {
        JsonModel::Array(Seq::new(items.len(), |i: int| items[i].encode()))
    }

    /// The list of values that a JSON value stands for, if it stands for one.
    pub open spec fn decode_list(j: JsonModel) -> Option<Seq<AudioFormatSpecModel>> {
        match j {
            JsonModel::Array(items) => if forall|i: int|
                0 <= i < items.len() ==> Self::decode(#[trigger] items[i]) is Some {
                Some(Seq::new(items.len(), |i: int| Self::decode(items[i])->Some_0))
            } else {
                None
            },
            _ => None,
        }
    }

    /// Every list of values is read back from its JSON value.
    pub proof fn lemma_list_round_trip(items: Seq<AudioFormatSpecModel>)
        ensures
            Self::decode_list(Self::encode_list(items)) == Some(items),
    {
        let encoded = Seq::new(items.len(), |i: int| items[i].encode());
        assert forall|i: int| 0 <= i < encoded.len() implies Self::decode(
            #[trigger] encoded[i],
        ) == Some(items[i]) by {
            items[i].lemma_round_trip();
        }
        assert(Self::decode_list(Self::encode_list(items))->Some_0 =~= items);
    }
}

impl AudioFormatSpec {
    /// This value as its record on the wire.
    pub fn to_json(&self) -> (j: Json)
        ensures
            j@ == self@.encode(),
    {
        let mut members: Vec<Member> = no_members();
        put_member(&mut members, "codec", Json::Str(self.codec.clone()));
        put_member(&mut members, "channels", Json::Int(self.channels as i64));
        put_member(&mut members, "sample_rate", Json::Int(self.sample_rate as i64));
        put_member(&mut members, "bit_depth", Json::Int(self.bit_depth as i64));
        Json::Object(members)
    }

    /// Reads a value from its record on the wire; `None` where the record
    /// stands for none.
    pub fn from_json(j: &Json) -> (r: Option<AudioFormatSpec>)
        ensures
            match r {
                Some(value) => AudioFormatSpecModel::decode(j@) == Some(value@),
                None => AudioFormatSpecModel::decode(j@) is None,
            },
    {
        if !j.is_object() {
            return None;
        }
        let codec: String = match j.get("codec") {
            Some(v) => match v.as_string() {
                Some(x) => x,
                None => {
                    return None;
                },
            },
            None => {
                return None;
            },
        };
        let channels: u8 = match j.get("channels") {
            Some(v) => match v.as_u8() {
                Some(x) => x,
                None => {
                    return None;
                },
            },
            None => {
                return None;
            },
        };
        let sample_rate: u32 = match j.get("sample_rate") {
            Some(v) => match v.as_u32() {
                Some(x) => x,
                None => {
                    return None;
                },
            },
            None => {
                return None;
            },
        };
        let bit_depth: u8 = match j.get("bit_depth") {
            Some(v) => match v.as_u8() {
                Some(x) => x,
                None => {
                    return None;
                },
            },
            None => {
                return None;
            },
        };
        Some(AudioFormatSpec { codec, channels, sample_rate, bit_depth })
    }

    /// The values of a run of values.
    pub open spec fn models(items: Seq<AudioFormatSpec>) -> Seq<AudioFormatSpecModel> {
        Seq::new(items.len(), |i: int| items[i]@)
    }

    /// A list of values as a JSON value.
    pub fn list_to_json(items: &Vec<AudioFormatSpec>) -> (j: Json)
        ensures
            j@ == AudioFormatSpecModel::encode_list(Self::models(items@)),
    {
        let mut encoded: Vec<Json> = Vec::new();
        let mut i: usize = 0;
        while i < items.len()
            invariant
                i <= items@.len(),
                encoded@.len() == i,
                forall|k: int| 0 <= k < i ==> (#[trigger] encoded@[k])@ == items@[k]@.encode(),
            decreases items@.len() - i,
        {
            encoded.push(items[i].to_json());
            i = i + 1;
        }
        assert(views(encoded@) =~= Seq::new(
            Self::models(items@).len(),
            |i: int| Self::models(items@)[i].encode(),
        ));
        Json::Array(encoded)
    }

    /// Reads a list of values from a JSON value; `None` where it stands for none.
    pub fn list_from_json(j: &Json) -> (r: Option<Vec<AudioFormatSpec>>)
        ensures
            match r {
                Some(items) => AudioFormatSpecModel::decode_list(j@) == Some(Self::models(items@)),
                None => AudioFormatSpecModel::decode_list(j@) is None,
            },
    {
        match j {
            Json::Array(encoded) => {
                let ghost models = views(encoded@);
                let mut items: Vec<AudioFormatSpec> = Vec::new();
                let mut i: usize = 0;
                while i < encoded.len()
                    invariant
                        i <= encoded@.len(),
                        items@.len() == i,
                        models == views(encoded@),
                        j@ == JsonModel::Array(models),
                        forall|k: int|
                            0 <= k < i ==> AudioFormatSpecModel::decode(#[trigger] models[k]) == Some(
                                items@[k]@,
                            ),
                    decreases encoded@.len() - i,
                {
                    assert(models[i as int] == encoded@[i as int]@);
                    match AudioFormatSpec::from_json(&encoded[i]) {
                        Some(item) => {
                            items.push(item);
                        },
                        None => {
                            assert(AudioFormatSpecModel::decode(models[i as int]) is None);
                            return None;
                        },
                    }
                    i = i + 1;
                }
                assert(AudioFormatSpecModel::decode_list(j@)->Some_0 =~= Self::models(items@));
                Some(items)
            },
            _ => None,
        }
    }
}

/// What a client can do in the role `artwork@v1`.
#[derive(Debug, Clone)]
pub struct ArtworkV1Support {
    /// Artwork channels, 0 to 3, that the client shows.
    pub channels: Vec<u8>,
}

/// A `ArtworkV1Support` over plain values.
pub ghost struct ArtworkV1SupportModel {
    pub channels: Seq<u8>,
}

impl View for ArtworkV1Support {
    type V = ArtworkV1SupportModel;

    open spec fn view(&self) -> ArtworkV1SupportModel {
        ArtworkV1SupportModel {
            channels: self.channels@,
        }
    }
}

impl ArtworkV1SupportModel {
    /// The record on the wire: each member under its name, and an absent
    /// optional member left out.
    pub open spec fn encode(self) -> JsonModel {
        let m0 = Seq::<(Seq<char>, JsonModel)>::empty();
        let m1 = put(m0, "channels"@, encode_bytes(self.channels));
        JsonModel::Object(m1)
    }

    /// The value that a record on the wire stands for. The record must be
    /// an object. A required member must be there and of its type. An
    /// optional member may be absent or `null`, and must else be of its
    /// type. Members of other names are passed over.
    pub open spec fn decode(j: JsonModel) -> Option<ArtworkV1SupportModel> {
        match j {
            JsonModel::Object(members) => {
                let channels = match lookup(members, "channels"@) {
                    Some(v) => decode_bytes(v),
                    None => None,
                };
                let complete = channels is Some;
                if complete {
                    Some(ArtworkV1SupportModel {
                        channels: channels->Some_0,
                    })
                } else {
                    None
                }
            },
            _ => None,
        }
    }

    /// Every value is read back from its record on the wire.
    pub proof fn lemma_round_trip(self)
        ensures
            Self::decode(self.encode()) == Some(self),
            self.encode() is Object,
    {
        reveal_strlit("channels");
        let m0 = Seq::<(Seq<char>, JsonModel)>::empty();
        let v1 = encode_bytes(self.channels);
        let m1 = put(m0, "channels"@, v1);
        assert(self.encode() == JsonModel::Object(m1));
        assert(lookup(m1, "channels"@) == Some(v1)) by {
            lemma_lookup_put(m0, "channels"@, v1, "channels"@);
        }
        lemma_bytes_round_trip(self.channels);
    }

    /// The record holds whole numbers only.
    pub proof fn lemma_whole(self)
        ensures
            whole_numbers(self.encode()),
    {
        let m0 = Seq::<(Seq<char>, JsonModel)>::empty();
        assert(whole_members(m0));
        lemma_whole_lists(Seq::<Seq<char>>::empty(), self.channels);
        let v1 = encode_bytes(self.channels);
        lemma_whole_put(m0, "channels"@, v1);
        let m1 = put(m0, "channels"@, v1);
        assert(self.encode() == JsonModel::Object(m1));
    }
}

impl ArtworkV1Support {
    /// This value as its record on the wire.
    pub fn to_json(&self) -> (j: Json)
        ensures
            j@ == self@.encode(),
    {
        let mut members: Vec<Member> = no_members();
        put_member(&mut members, "channels", bytes_to_json(&self.channels));
        Json::Object(members)
    }

    /// Reads a value from its record on the wire; `None` where the record
    /// stands for none.
    pub fn from_json(j: &Json) -> (r: Option<ArtworkV1Support>)
        ensures
            match r {
                Some(value) => ArtworkV1SupportModel::decode(j@) == Some(value@),
                None => ArtworkV1SupportModel::decode(j@) is None,
            },
    {
        if !j.is_object() {
            return None;
        }
        let channels: Vec<u8> = match j.get("channels") {
            Some(v) => match bytes_from_json(v) {
                Some(x) => x,
                None => {
                    return None;
                },
            },
            None => {
                return None;
            },
        };
        Some(ArtworkV1Support { channels })
    }
}

/// What a client can do in the role `visualizer@v1`.
#[derive(Debug, Clone, Copy, PartialEq, Eq, Structural)]
pub struct VisualizerV1Support {
    /// Amount of visualization data that the client can hold.
    pub buffer_capacity: u32,
}

impl VisualizerV1Support {
    /// The record on the wire: each member under its name, and an absent
    /// optional member left out.
    pub open spec fn encode(self) -> JsonModel {
        let m0 = Seq::<(Seq<char>, JsonModel)>::empty();
        let m1 = put(m0, "buffer_capacity"@, JsonModel::Int(self.buffer_capacity as int));
        JsonModel::Object(m1)
    }

    /// The value that a record on the wire stands for. The record must be
    /// an object. A required member must be there and of its type. An
    /// optional member may be absent or `null`, and must else be of its
    /// type. Members of other names are passed over.
    pub open spec fn decode(j: JsonModel) -> Option<VisualizerV1Support> {
        match j {
            JsonModel::Object(members) => {
                let buffer_capacity = match lookup(members, "buffer_capacity"@) {
                    Some(v) => v.as_u32(),
                    None => None,
                };
                let complete = buffer_capacity is Some;
                if complete {
                    Some(VisualizerV1Support {
                        buffer_capacity: buffer_capacity->Some_0,
                    })
                } else {
                    None
                }
            },
            _ => None,
        }
    }

    /// Every value is read back from its record on the wire.
    pub proof fn lemma_round_trip(self)
        ensures
            Self::decode(self.encode()) == Some(self),
            self.encode() is Object,
    {
        reveal_strlit("buffer_capacity");
        let m0 = Seq::<(Seq<char>, JsonModel)>::empty();
        let v1 = JsonModel::Int(self.buffer_capacity as int);
        let m1 = put(m0, "buffer_capacity"@, v1);
        assert(self.encode() == JsonModel::Object(m1));
        assert(lookup(m1, "buffer_capacity"@) == Some(v1)) by {
            lemma_lookup_put(m0, "buffer_capacity"@, v1, "buffer_capacity"@);
        }
    }

    /// The record holds whole numbers only.
    pub proof fn lemma_whole(self)
        ensures
            whole_numbers(self.encode()),
    {
        let m0 = Seq::<(Seq<char>, JsonModel)>::empty();
        assert(whole_members(m0));
        let v1 = JsonModel::Int(self.buffer_capacity as int);
        lemma_whole_put(m0, "buffer_capacity"@, v1);
        let m1 = put(m0, "buffer_capacity"@, v1);
        assert(self.encode() == JsonModel::Object(m1));
    }
}

impl VisualizerV1Support {
    /// This value as its record on the wire.
    pub fn to_json(&self) -> (j: Json)
        ensures
            j@ == self.encode(),
    {
        let mut members: Vec<Member> = no_members();
        put_member(&mut members, "buffer_capacity", Json::Int(self.buffer_capacity as i64));
        Json::Object(members)
    }

    /// Reads a value from its record on the wire; `None` where the record
    /// stands for none.
    pub fn from_json(j: &Json) -> (r: Option<VisualizerV1Support>)
        ensures
            r == VisualizerV1Support::decode(j@),
    {
        if !j.is_object() {
            return None;
        }
        let buffer_capacity: u32 = match j.get("buffer_capacity") {
            Some(v) => match v.as_u32() {
                Some(x) => x,
                None => {
                    return None;
                },
            },
            None => {
                return None;
            },
        };
        Some(VisualizerV1Support { buffer_capacity })
    }
}

/// The server's answer to the client's opening message.
#[derive(Debug, Clone)]
pub struct ServerHello {
    /// Unique server identifier.
    pub server_id: String,
    /// Name of the server for people to read.
    pub name: String,
    /// Protocol version.
    pub version: u32,
    /// Roles that the server has made active for this client.
    pub active_roles: Vec<String>,
    /// Why the server holds this connection.
    pub connection_reason: ConnectionReason,
}

/// A `ServerHello` over plain values.
pub ghost struct ServerHelloModel {
    pub server_id: Seq<char>,
    pub name: Seq<char>,
    pub version: u32,
    pub active_roles: Seq<Seq<char>>,
    pub connection_reason: ConnectionReason,
}

impl View for ServerHello {
    type V = ServerHelloModel;

    open spec fn view(&self) -> ServerHelloModel {
        ServerHelloModel {
            server_id: self.server_id@,
            name: self.name@,
            version: self.version,
            active_roles: texts(self.active_roles@),
            connection_reason: self.connection_reason,
        }
    }
}

impl ServerHelloModel {
    /// The record on the wire: each member under its name, and an absent
    /// optional member left out.
    pub open spec fn encode(self) -> JsonModel {
        let m0 = Seq::<(Seq<char>, JsonModel)>::empty();
        let m1 = put(m0, "server_id"@, JsonModel::Str(self.server_id));
        let m2 = put(m1, "name"@, JsonModel::Str(self.name));
        let m3 = put(m2, "version"@, JsonModel::Int(self.version as int));
        let m4 = put(m3, "active_roles"@, encode_texts(self.active_roles));
        let m5 = put(m4, "connection_reason"@, self.connection_reason.spec_to_json());
        JsonModel::Object(m5)
    }

    /// The value that a record on the wire stands for. The record must be
    /// an object. A required member must be there and of its type. An
    /// optional member may be absent or `null`, and must else be of its
    /// type. Members of other names are passed over.
    pub open spec fn decode(j: JsonModel) -> Option<ServerHelloModel> {
        match j {
            JsonModel::Object(members) => {
                let server_id = match lookup(members, "server_id"@) {
                    Some(v) => v.as_str(),
                    None => None,
                };
                let name = match lookup(members, "name"@) {
                    Some(v) => v.as_str(),
                    None => None,
                };
                let version = match lookup(members, "version"@) {
                    Some(v) => v.as_u32(),
                    None => None,
                };
                let active_roles = match lookup(members, "active_roles"@) {
                    Some(v) => decode_texts(v),
                    None => None,
                };
                let connection_reason = match lookup(members, "connection_reason"@) {
                    Some(v) => ConnectionReason::spec_from_json(v),
                    None => None,
                };
                let complete = server_id is Some
                    && name is Some
                    && version is Some
                    && active_roles is Some
                    && connection_reason is Some;
                if complete {
                    Some(ServerHelloModel {
                        server_id: server_id->Some_0,
                        name: name->Some_0,
                        version: version->Some_0,
                        active_roles: active_roles->Some_0,
                        connection_reason: connection_reason->Some_0,
                    })
                } else {
                    None
                }
            },
            _ => None,
        }
    }

    /// Every value is read back from its record on the wire.
    pub proof fn lemma_round_trip(self)
        ensures
            Self::decode(self.encode()) == Some(self),
            self.encode() is Object,
    {
        reveal_strlit("server_id");
        reveal_strlit("name");
        reveal_strlit("version");
        reveal_strlit("active_roles");
        reveal_strlit("connection_reason");
        assert("server_id"@.len() != "name"@.len());
        assert("server_id"@.len() != "version"@.len());
        assert("server_id"@.len() != "active_roles"@.len());
        assert("server_id"@.len() != "connection_reason"@.len());
        assert("name"@.len() != "version"@.len());
        assert("name"@.len() != "active_roles"@.len());
        assert("name"@.len() != "connection_reason"@.len());
        assert("version"@.len() != "active_roles"@.len());
        assert("version"@.len() != "connection_reason"@.len());
        assert("active_roles"@.len() != "connection_reason"@.len());
        let m0 = Seq::<(Seq<char>, JsonModel)>::empty();
        let v1 = JsonModel::Str(self.server_id);
        let m1 = put(m0, "server_id"@, v1);
        let v2 = JsonModel::Str(self.name);
        let m2 = put(m1, "name"@, v2);
        let v3 = JsonModel::Int(self.version as int);
        let m3 = put(m2, "version"@, v3);
        let v4 = encode_texts(self.active_roles);
        let m4 = put(m3, "active_roles"@, v4);
        let v5 = self.connection_reason.spec_to_json();
        let m5 = put(m4, "connection_reason"@, v5);
        assert(self.encode() == JsonModel::Object(m5));
        assert(lookup(m5, "server_id"@) == Some(v1)) by {
            lemma_lookup_put(m4, "connection_reason"@, v5, "server_id"@);
            lemma_lookup_put(m3, "active_roles"@, v4, "server_id"@);
            lemma_lookup_put(m2, "version"@, v3, "server_id"@);
            lemma_lookup_put(m1, "name"@, v2, "server_id"@);
            lemma_lookup_put(m0, "server_id"@, v1, "server_id"@);
        }
        assert(lookup(m5, "name"@) == Some(v2)) by {
            lemma_lookup_put(m4, "connection_reason"@, v5, "name"@);
            lemma_lookup_put(m3, "active_roles"@, v4, "name"@);
            lemma_lookup_put(m2, "version"@, v3, "name"@);
            lemma_lookup_put(m1, "name"@, v2, "name"@);
        }
        assert(lookup(m5, "version"@) == Some(v3)) by {
            lemma_lookup_put(m4, "connection_reason"@, v5, "version"@);
            lemma_lookup_put(m3, "active_roles"@, v4, "version"@);
            lemma_lookup_put(m2, "version"@, v3, "version"@);
        }
        assert(lookup(m5, "active_roles"@) == Some(v4)) by {
            lemma_lookup_put(m4, "connection_reason"@, v5, "active_roles"@);
            lemma_lookup_put(m3, "active_roles"@, v4, "active_roles"@);
        }
        assert(lookup(m5, "connection_reason"@) == Some(v5)) by {
            lemma_lookup_put(m4, "connection_reason"@, v5, "connection_reason"@);
        }
        lemma_texts_round_trip(self.active_roles);
        self.connection_reason.lemma_json_round_trip();
    }

    /// The record holds whole numbers only.
    pub proof fn lemma_whole(self)
        ensures
            whole_numbers(self.encode()),
    {
        let m0 = Seq::<(Seq<char>, JsonModel)>::empty();
        assert(whole_members(m0));
        let v1 = JsonModel::Str(self.server_id);
        lemma_whole_put(m0, "server_id"@, v1);
        let m1 = put(m0, "server_id"@, v1);
        let v2 = JsonModel::Str(self.name);
        lemma_whole_put(m1, "name"@, v2);
        let m2 = put(m1, "name"@, v2);
        let v3 = JsonModel::Int(self.version as int);
        lemma_whole_put(m2, "version"@, v3);
        let m3 = put(m2, "version"@, v3);
        lemma_whole_lists(self.active_roles, Seq::<u8>::empty());
        let v4 = encode_texts(self.active_roles);
        lemma_whole_put(m3, "active_roles"@, v4);
        let m4 = put(m3, "active_roles"@, v4);
        let v5 = self.connection_reason.spec_to_json();
        lemma_whole_put(m4, "connection_reason"@, v5);
        let m5 = put(m4, "connection_reason"@, v5);
        assert(self.encode() == JsonModel::Object(m5));
    }
}

impl ServerHello {
    /// This value as its record on the wire.
    pub fn to_json(&self) -> (j: Json)
        ensures
            j@ == self@.encode(),
    {
        let mut members: Vec<Member> = no_members();
        put_member(&mut members, "server_id", Json::Str(self.server_id.clone()));
        put_member(&mut members, "name", Json::Str(self.name.clone()));
        put_member(&mut members, "version", Json::Int(self.version as i64));
        put_member(&mut members, "active_roles", texts_to_json(&self.active_roles));
        put_member(&mut members, "connection_reason", self.connection_reason.to_json());
        Json::Object(members)
    }

    /// Reads a value from its record on the wire; `None` where the record
    /// stands for none.
    pub fn from_json(j: &Json) -> (r: Option<ServerHello>)
        ensures
            match r {
                Some(value) => ServerHelloModel::decode(j@) == Some(value@),
                None => ServerHelloModel::decode(j@) is None,
            },
    {
        if !j.is_object() {
            return None;
        }
        let server_id: String = match j.get("server_id") {
            Some(v) => match v.as_string() {
                Some(x) => x,
                None => {
                    return None;
                },
            },
            None => {
                return None;
            },
        };
        let name: String = match j.get("name") {
            Some(v) => match v.as_string() {
                Some(x) => x,
                None => {
                    return None;
                },
            },
            None => {
                return None;
            },
        };
        let version: u32 = match j.get("version") {
            Some(v) => match v.as_u32() {
                Some(x) => x,
                None => {
                    return None;
                },
            },
            None => {
                return None;
            },
        };
        let active_roles: Vec<String> = match j.get("active_roles") {
            Some(v) => match texts_from_json(v) {
                Some(x) => x,
                None => {
                    return None;
                },
            },
            None => {
                return None;
            },
        };
        let connection_reason: ConnectionReason = match j.get("connection_reason") {
            Some(v) => match ConnectionReason::from_json(v) {
                Some(x) => x,
                None => {
                    return None;
                },
            },
            None => {
                return None;
            },
        };
        Some(ServerHello {
            server_id,
            name,
            version,
            active_roles,
            connection_reason,
        })
    }
}

/// Why a server holds a connection.
#[derive(Debug, Clone, Copy, PartialEq, Eq, Structural)]
pub enum ConnectionReason {
    /// To announce itself.
    Discovery,
    /// To play.
    Playback,
}

impl ConnectionReason {
    /// The name of a value on the wire.
    pub open spec fn spec_wire(self) -> Seq<char> {
        match self {
            ConnectionReason::Discovery => "discovery"@,
            ConnectionReason::Playback => "playback"@,
        }
    }

    /// The value that a name on the wire stands for, if it stands for one.
    pub open spec fn spec_from_wire(name: Seq<char>) -> Option<Self> {
        if name == "discovery"@ {
            Some(ConnectionReason::Discovery)
        } else if name == "playback"@ {
            Some(ConnectionReason::Playback)
        } else {
            None
        }
    }

    /// A value as a JSON value: its name on the wire, as a text.
    pub open spec fn spec_to_json(self) -> JsonModel {
        JsonModel::Str(self.spec_wire())
    }

    /// The value that a JSON value stands for: it must be a text, and a name on the wire.
    pub open spec fn spec_from_json(j: JsonModel) -> Option<Self> {
        match j {
            JsonModel::Str(name) => Self::spec_from_wire(name),
            _ => None,
        }
    }

    /// The name of this value on the wire.
    pub fn as_wire(&self) -> (name: &'static str)
        ensures
            name@ == self.spec_wire(),
    {
        match self {
            ConnectionReason::Discovery => "discovery",
            ConnectionReason::Playback => "playback",
        }
    }

    /// Reads a name from the wire; `None` for a name that stands for no value.
    pub fn from_wire(name: &str) -> (value: Option<Self>)
        ensures
            value == Self::spec_from_wire(name@),
    {
        if same_text(name, "discovery") {
            Some(ConnectionReason::Discovery)
        } else if same_text(name, "playback") {
            Some(ConnectionReason::Playback)
        } else {
            None
        }
    }

    /// This value as a JSON value.
    pub fn to_json(&self) -> (j: Json)
        ensures
            j@ == self.spec_to_json(),
    {
        Json::text(self.as_wire())
    }

    /// Reads a value from a JSON value; `None` where it stands for none.
    pub fn from_json(j: &Json) -> (value: Option<Self>)
        ensures
            value == Self::spec_from_json(j@),
    {
        match j.as_str() {
            Some(name) => Self::from_wire(name),
            None => None,
        }
    }

    /// Every value is read back from its name on the wire.
    pub proof fn lemma_wire_round_trip(self)
        ensures
            Self::spec_from_wire(self.spec_wire()) == Some(self),
    {
        reveal_strlit("discovery");
        reveal_strlit("playback");
        assert("discovery"@.len() != "playback"@.len());
    }

    /// Every value is read back from its JSON value.
    pub proof fn lemma_json_round_trip(self)
        ensures
            Self::spec_from_json(self.spec_to_json()) == Some(self),
            !(self.spec_to_json() is Null),
    {
        self.lemma_wire_round_trip();
    }
}

/// The client's half of a clock exchange.
#[derive(Debug, Clone, Copy, PartialEq, Eq, Structural)]
pub struct ClientTime {
    /// Wall clock time at which the client sent this, in microseconds since the Unix epoch.
    pub client_transmitted: i64,
}

impl ClientTime {
    /// The record on the wire: each member under its name, and an absent
    /// optional member left out.
    pub open spec fn encode(self) -> JsonModel {
        let m0 = Seq::<(Seq<char>, JsonModel)>::empty();
        let m1 = put(m0, "client_transmitted"@, JsonModel::Int(self.client_transmitted as int));
        JsonModel::Object(m1)
    }

    /// The value that a record on the wire stands for. The record must be
    /// an object. A required member must be there and of its type. An
    /// optional member may be absent or `null`, and must else be of its
    /// type. Members of other names are passed over.
    pub open spec fn decode(j: JsonModel) -> Option<ClientTime> {
        match j {
            JsonModel::Object(members) => {
                let client_transmitted = match lookup(members, "client_transmitted"@) {
                    Some(v) => v.as_i64(),
                    None => None,
                };
                let complete = client_transmitted is Some;
                if complete {
                    Some(ClientTime {
                        client_transmitted: client_transmitted->Some_0,
                    })
                } else {
                    None
                }
            },
            _ => None,
        }
    }

    /// Every value is read back from its record on the wire.
    pub proof fn lemma_round_trip(self)
        ensures
            Self::decode(self.encode()) == Some(self),
            self.encode() is Object,
    {
        reveal_strlit("client_transmitted");
        let m0 = Seq::<(Seq<char>, JsonModel)>::empty();
        let v1 = JsonModel::Int(self.client_transmitted as int);
        let m1 = put(m0, "client_transmitted"@, v1);
        assert(self.encode() == JsonModel::Object(m1));
        assert(lookup(m1, "client_transmitted"@) == Some(v1)) by {
            lemma_lookup_put(m0, "client_transmitted"@, v1, "client_transmitted"@);
        }
    }

    /// The record holds whole numbers only.
    pub proof fn lemma_whole(self)
        ensures
            whole_numbers(self.encode()),
    {
        let m0 = Seq::<(Seq<char>, JsonModel)>::empty();
        assert(whole_members(m0));
        let v1 = JsonModel::Int(self.client_transmitted as int);
        lemma_whole_put(m0, "client_transmitted"@, v1);
        let m1 = put(m0, "client_transmitted"@, v1);
        assert(self.encode() == JsonModel::Object(m1));
    }
}

impl ClientTime {
    /// This value as its record on the wire.
    pub fn to_json(&self) -> (j: Json)
        ensures
            j@ == self.encode(),
    {
        let mut members: Vec<Member> = no_members();
        put_member(&mut members, "client_transmitted", Json::Int(self.client_transmitted));
        Json::Object(members)
    }

    /// Reads a value from its record on the wire; `None` where the record
    /// stands for none.
    pub fn from_json(j: &Json) -> (r: Option<ClientTime>)
        ensures
            r == ClientTime::decode(j@),
    {
        if !j.is_object() {
            return None;
        }
        let client_transmitted: i64 = match j.get("client_transmitted") {
            Some(v) => match v.as_i64() {
                Some(x) => x,
                None => {
                    return None;
                },
            },
            None => {
                return None;
            },
        };
        Some(ClientTime { client_transmitted })
    }
}

/// The server's half of a clock exchange.
#[derive(Debug, Clone, Copy, PartialEq, Eq, Structural)]
pub struct ServerTime {
    /// The time that the client's message carried.
    pub client_transmitted: i64,
    /// Server loop time at which the client's message arrived, in microseconds.
    pub server_received: i64,
    /// Server loop time at which this answer left, in microseconds.
    pub server_transmitted: i64,
}

impl ServerTime {
    /// The record on the wire: each member under its name, and an absent
    /// optional member left out.
    pub open spec fn encode(self) -> JsonModel {
        let m0 = Seq::<(Seq<char>, JsonModel)>::empty();
        let m1 = put(m0, "client_transmitted"@, JsonModel::Int(self.client_transmitted as int));
        let m2 = put(m1, "server_received"@, JsonModel::Int(self.server_received as int));
        let m3 = put(m2, "server_transmitted"@, JsonModel::Int(self.server_transmitted as int));
        JsonModel::Object(m3)
    }

    /// The value that a record on the wire stands for. The record must be
    /// an object. A required member must be there and of its type. An
    /// optional member may be absent or `null`, and must else be of its
    /// type. Members of other names are passed over.
    pub open spec fn decode(j: JsonModel) -> Option<ServerTime> {
        match j {
            JsonModel::Object(members) => {
                let client_transmitted = match lookup(members, "client_transmitted"@) {
                    Some(v) => v.as_i64(),
                    None => None,
                };
                let server_received = match lookup(members, "server_received"@) {
                    Some(v) => v.as_i64(),
                    None => None,
                };
                let server_transmitted = match lookup(members, "server_transmitted"@) {
                    Some(v) => v.as_i64(),
                    None => None,
                };
                let complete = client_transmitted is Some
                    && server_received is Some
                    && server_transmitted is Some;
                if complete {
                    Some(ServerTime {
                        client_transmitted: client_transmitted->Some_0,
                        server_received: server_received->Some_0,
                        server_transmitted: server_transmitted->Some_0,
                    })
                } else {
                    None
                }
            },
            _ => None,
        }
    }

    /// Every value is read back from its record on the wire.
    pub proof fn lemma_round_trip(self)
        ensures
            Self::decode(self.encode()) == Some(self),
            self.encode() is Object,
    {
        reveal_strlit("client_transmitted");
        reveal_strlit("server_received");
        reveal_strlit("server_transmitted");
        assert("client_transmitted"@.len() != "server_received"@.len());
        assert("client_transmitted"@[0] != "server_transmitted"@[0]);
        assert("server_received"@.len() != "server_transmitted"@.len());
        let m0 = Seq::<(Seq<char>, JsonModel)>::empty();
        let v1 = JsonModel::Int(self.client_transmitted as int);
        let m1 = put(m0, "client_transmitted"@, v1);
        let v2 = JsonModel::Int(self.server_received as int);
        let m2 = put(m1, "server_received"@, v2);
        let v3 = JsonModel::Int(self.server_transmitted as int);
        let m3 = put(m2, "server_transmitted"@, v3);
        assert(self.encode() == JsonModel::Object(m3));
        assert(lookup(m3, "client_transmitted"@) == Some(v1)) by {
            lemma_lookup_put(m2, "server_transmitted"@, v3, "client_transmitted"@);
            lemma_lookup_put(m1, "server_received"@, v2, "client_transmitted"@);
            lemma_lookup_put(m0, "client_transmitted"@, v1, "client_transmitted"@);
        }
        assert(lookup(m3, "server_received"@) == Some(v2)) by {
            lemma_lookup_put(m2, "server_transmitted"@, v3, "server_received"@);
            lemma_lookup_put(m1, "server_received"@, v2, "server_received"@);
        }
        assert(lookup(m3, "server_transmitted"@) == Some(v3)) by {
            lemma_lookup_put(m2, "server_transmitted"@, v3, "server_transmitted"@);
        }
    }

    /// The record holds whole numbers only.
    pub proof fn lemma_whole(self)
        ensures
            whole_numbers(self.encode()),
    {
        let m0 = Seq::<(Seq<char>, JsonModel)>::empty();
        assert(whole_members(m0));
        let v1 = JsonModel::Int(self.client_transmitted as int);
        lemma_whole_put(m0, "client_transmitted"@, v1);
        let m1 = put(m0, "client_transmitted"@, v1);
        let v2 = JsonModel::Int(self.server_received as int);
        lemma_whole_put(m1, "server_received"@, v2);
        let m2 = put(m1, "server_received"@, v2);
        let v3 = JsonModel::Int(self.server_transmitted as int);
        lemma_whole_put(m2, "server_transmitted"@, v3);
        let m3 = put(m2, "server_transmitted"@, v3);
        assert(self.encode() == JsonModel::Object(m3));
    }
}

impl ServerTime {
    /// This value as its record on the wire.
    pub fn to_json(&self) -> (j: Json)
        ensures
            j@ == self.encode(),
    {
        let mut members: Vec<Member> = no_members();
        put_member(&mut members, "client_transmitted", Json::Int(self.client_transmitted));
        put_member(&mut members, "server_received", Json::Int(self.server_received));
        put_member(&mut members, "server_transmitted", Json::Int(self.server_transmitted));
        Json::Object(members)
    }

    /// Reads a value from its record on the wire; `None` where the record
    /// stands for none.
    pub fn from_json(j: &Json) -> (r: Option<ServerTime>)
        ensures
            r == ServerTime::decode(j@),
    {
        if !j.is_object() {
            return None;
        }
        let client_transmitted: i64 = match j.get("client_transmitted") {
            Some(v) => match v.as_i64() {
                Some(x) => x,
                None => {
                    return None;
                },
            },
            None => {
                return None;
            },
        };
        let server_received: i64 = match j.get("server_received") {
            Some(v) => match v.as_i64() {
                Some(x) => x,
                None => {
                    return None;
                },
            },
            None => {
                return None;
            },
        };
        let server_transmitted: i64 = match j.get("server_transmitted") {
            Some(v) => match v.as_i64() {
                Some(x) => x,
                None => {
                    return None;
                },
            },
            None => {
                return None;
            },
        };
        Some(ServerTime { client_transmitted, server_received, server_transmitted })
    }
}

/// The state that a client reports.
#[derive(Debug, Clone, Copy, PartialEq, Eq, Structural)]
pub struct ClientState {
    /// State of the player role.
    pub player: Option<PlayerState>,
}

impl ClientState {
    /// The record on the wire: each member under its name, and an absent
    /// optional member left out.
    pub open spec fn encode(self) -> JsonModel {
        let m0 = Seq::<(Seq<char>, JsonModel)>::empty();
        let m1 = put_opt(
            m0,
            "player"@,
            match self.player {
                Some(x) => Some(x.encode()),
                None => None,
            },
        );
        JsonModel::Object(m1)
    }

    /// The value that a record on the wire stands for. The record must be
    /// an object. A required member must be there and of its type. An
    /// optional member may be absent or `null`, and must else be of its
    /// type. Members of other names are passed over.
    pub open spec fn decode(j: JsonModel) -> Option<ClientState> {
        match j {
            JsonModel::Object(members) => {
                let player = match present(members, "player"@) {
                    Some(v) => found(PlayerState::decode(v)),
                    None => Some(None),
                };
                let complete = player is Some;
                if complete {
                    Some(ClientState {
                        player: player->Some_0,
                    })
                } else {
                    None
                }
            },
            _ => None,
        }
    }

    /// Every value is read back from its record on the wire.
    pub proof fn lemma_round_trip(self)
        ensures
            Self::decode(self.encode()) == Some(self),
            self.encode() is Object,
    {
        reveal_strlit("player");
        let m0 = Seq::<(Seq<char>, JsonModel)>::empty();
        let v1 = match self.player {
            Some(x) => Some(x.encode()),
            None => None,
        };
        let m1 = put_opt(m0, "player"@, v1);
        assert(self.encode() == JsonModel::Object(m1));
        assert(lookup(m1, "player"@) == v1) by {
            lemma_lookup_put_opt(m0, "player"@, v1, "player"@);
        }
        if self.player is Some {
            self.player->Some_0.lemma_round_trip();
        }
    }

    /// The record holds whole numbers only.
    pub proof fn lemma_whole(self)
        ensures
            whole_numbers(self.encode()),
    {
        let m0 = Seq::<(Seq<char>, JsonModel)>::empty();
        assert(whole_members(m0));
        if self.player is Some {
            self.player->Some_0.lemma_whole();
        }
        let v1 = match self.player {
            Some(x) => Some(x.encode()),
            None => None,
        };
        lemma_whole_put_opt(m0, "player"@, v1);
        let m1 = put_opt(m0, "player"@, v1);
        assert(self.encode() == JsonModel::Object(m1));
    }
}

impl ClientState {
    /// This value as its record on the wire.
    pub fn to_json(&self) -> (j: Json)
        ensures
            j@ == self.encode(),
    {
        let mut members: Vec<Member> = no_members();
        match &self.player {
            Some(x) => {
                put_member(&mut members, "player", x.to_json());
            },
            None => {},
        }
        Json::Object(members)
    }

    /// Reads a value from its record on the wire; `None` where the record
    /// stands for none.
    pub fn from_json(j: &Json) -> (r: Option<ClientState>)
        ensures
            r == ClientState::decode(j@),
    {
        if !j.is_object() {
            return None;
        }
        let player: Option<PlayerState> = match j.get_present("player") {
            Some(v) => match PlayerState::from_json(v) {
                Some(x) => Some(x),
                None => {
                    return None;
                },
            },
            None => None,
        };
        Some(ClientState { player })
    }
}

/// State of the player role.
#[derive(Debug, Clone, Copy, PartialEq, Eq, Structural)]
pub struct PlayerState {
    /// Whether the player follows the server clock.
    pub state: PlayerSyncState,
    /// Volume, 0 to 100.
    pub volume: Option<u8>,
    /// Whether the sound is muted.
    pub muted: Option<bool>,
}

impl PlayerState {
    /// The record on the wire: each member under its name, and an absent
    /// optional member left out.
    pub open spec fn encode(self) -> JsonModel {
        let m0 = Seq::<(Seq<char>, JsonModel)>::empty();
        let m1 = put(m0, "state"@, self.state.spec_to_json());
        let m2 = put_opt(
            m1,
            "volume"@,
            match self.volume {
                Some(x) => Some(JsonModel::Int(x as int)),
                None => None,
            },
        );
        let m3 = put_opt(
            m2,
            "muted"@,
            match self.muted {
                Some(x) => Some(JsonModel::Bool(x)),
                None => None,
            },
        );
        JsonModel::Object(m3)
    }

    /// The value that a record on the wire stands for. The record must be
    /// an object. A required member must be there and of its type. An
    /// optional member may be absent or `null`, and must else be of its
    /// type. Members of other names are passed over.
    pub open spec fn decode(j: JsonModel) -> Option<PlayerState> {
        match j {
            JsonModel::Object(members) => {
                let state = match lookup(members, "state"@) {
                    Some(v) => PlayerSyncState::spec_from_json(v),
                    None => None,
                };
                let volume = match present(members, "volume"@) {
                    Some(v) => found(v.as_u8()),
                    None => Some(None),
                };
                let muted = match present(members, "muted"@) {
                    Some(v) => found(v.as_bool()),
                    None => Some(None),
                };
                let complete = state is Some
                    && volume is Some
                    && muted is Some;
                if complete {
                    Some(PlayerState {
                        state: state->Some_0,
                        volume: volume->Some_0,
                        muted: muted->Some_0,
                    })
                } else {
                    None
                }
            },
            _ => None,
        }
    }

    /// Every value is read back from its record on the wire.
    pub proof fn lemma_round_trip(self)
        ensures
            Self::decode(self.encode()) == Some(self),
            self.encode() is Object,
    {
        reveal_strlit("state");
        reveal_strlit("volume");
        reveal_strlit("muted");
        assert("state"@.len() != "volume"@.len());
        assert("state"@[0] != "muted"@[0]);
        assert("volume"@.len() != "muted"@.len());
        let m0 = Seq::<(Seq<char>, JsonModel)>::empty();
        let v1 = self.state.spec_to_json();
        let m1 = put(m0, "state"@, v1);
        let v2 = match self.volume {
            Some(x) => Some(JsonModel::Int(x as int)),
            None => None,
        };
        let m2 = put_opt(m1, "volume"@, v2);
        let v3 = match self.muted {
            Some(x) => Some(JsonModel::Bool(x)),
            None => None,
        };
        let m3 = put_opt(m2, "muted"@, v3);
        assert(self.encode() == JsonModel::Object(m3));
        assert(lookup(m3, "state"@) == Some(v1)) by {
            lemma_lookup_put_opt(m2, "muted"@, v3, "state"@);
            lemma_lookup_put_opt(m1, "volume"@, v2, "state"@);
            lemma_lookup_put(m0, "state"@, v1, "state"@);
        }
        assert(lookup(m3, "volume"@) == v2) by {
            lemma_lookup_put_opt(m2, "muted"@, v3, "volume"@);
            lemma_lookup_put_opt(m1, "volume"@, v2, "volume"@);
            lemma_lookup_put(m0, "state"@, v1, "volume"@);
        }
        assert(lookup(m3, "muted"@) == v3) by {
            lemma_lookup_put_opt(m2, "muted"@, v3, "muted"@);
            lemma_lookup_put_opt(m1, "volume"@, v2, "muted"@);
            lemma_lookup_put(m0, "state"@, v1, "muted"@);
        }
        self.state.lemma_json_round_trip();
    }

    /// The record holds whole numbers only.
    pub proof fn lemma_whole(self)
        ensures
            whole_numbers(self.encode()),
    {
        let m0 = Seq::<(Seq<char>, JsonModel)>::empty();
        assert(whole_members(m0));
        let v1 = self.state.spec_to_json();
        lemma_whole_put(m0, "state"@, v1);
        let m1 = put(m0, "state"@, v1);
        let v2 = match self.volume {
            Some(x) => Some(JsonModel::Int(x as int)),
            None => None,
        };
        lemma_whole_put_opt(m1, "volume"@, v2);
        let m2 = put_opt(m1, "volume"@, v2);
        let v3 = match self.muted {
            Some(x) => Some(JsonModel::Bool(x)),
            None => None,
        };
        lemma_whole_put_opt(m2, "muted"@, v3);
        let m3 = put_opt(m2, "muted"@, v3);
        assert(self.encode() == JsonModel::Object(m3));
    }
}

impl PlayerState {
    /// This value as its record on the wire.
    pub fn to_json(&self) -> (j: Json)
        ensures
            j@ == self.encode(),
    {
        let mut members: Vec<Member> = no_members();
        put_member(&mut members, "state", self.state.to_json());
        match &self.volume {
            Some(x) => {
                put_member(&mut members, "volume", Json::Int(*x as i64));
            },
            None => {},
        }
        match &self.muted {
            Some(x) => {
                put_member(&mut members, "muted", Json::Bool(*x));
            },
            None => {},
        }
        Json::Object(members)
    }

    /// Reads a value from its record on the wire; `None` where the record
    /// stands for none.
    pub fn from_json(j: &Json) -> (r: Option<PlayerState>)
        ensures
            r == PlayerState::decode(j@),
    {
        if !j.is_object() {
            return None;
        }
        let state: PlayerSyncState = match j.get("state") {
            Some(v) => match PlayerSyncState::from_json(v) {
                Some(x) => x,
                None => {
                    return None;
                },
            },
            None => {
                return None;
            },
        };
        let volume: Option<u8> = match j.get_present("volume") {
            Some(v) => match v.as_u8() {
                Some(x) => Some(x),
                None => {
                    return None;
                },
            },
            None => None,
        };
        let muted: Option<bool> = match j.get_present("muted") {
            Some(v) => match v.as_bool() {
                Some(x) => Some(x),
                None => {
                    return None;
                },
            },
            None => None,
        };
        Some(PlayerState { state, volume, muted })
    }
}

/// Whether a player follows the server clock.
#[derive(Debug, Clone, Copy, PartialEq, Eq, Structural)]
pub enum PlayerSyncState {
    /// The player follows the server clock.
    Synchronized,
    /// The player has failed.
    Error,
}

impl PlayerSyncState {
    /// The name of a value on the wire.
    pub open spec fn spec_wire(self) -> Seq<char> {
        match self {
            PlayerSyncState::Synchronized => "synchronized"@,
            PlayerSyncState::Error => "error"@,
        }
    }

    /// The value that a name on the wire stands for, if it stands for one.
    pub open spec fn spec_from_wire(name: Seq<char>) -> Option<Self> {
        if name == "synchronized"@ {
            Some(PlayerSyncState::Synchronized)
        } else if name == "error"@ {
            Some(PlayerSyncState::Error)
        } else {
            None
        }
    }

    /// A value as a JSON value: its name on the wire, as a text.
    pub open spec fn spec_to_json(self) -> JsonModel {
        JsonModel::Str(self.spec_wire())
    }

    /// The value that a JSON value stands for: it must be a text, and a name on the wire.
    pub open spec fn spec_from_json(j: JsonModel) -> Option<Self> {
        match j {
            JsonModel::Str(name) => Self::spec_from_wire(name),
            _ => None,
        }
    }

    /// The name of this value on the wire.
    pub fn as_wire(&self) -> (name: &'static str)
        ensures
            name@ == self.spec_wire(),
    {
        match self {
            PlayerSyncState::Synchronized => "synchronized",
            PlayerSyncState::Error => "error",
        }
    }

    /// Reads a name from the wire; `None` for a name that stands for no value.
    pub fn from_wire(name: &str) -> (value: Option<Self>)
        ensures
            value == Self::spec_from_wire(name@),
    {
        if same_text(name, "synchronized") {
            Some(PlayerSyncState::Synchronized)
        } else if same_text(name, "error") {
            Some(PlayerSyncState::Error)
        } else {
            None
        }
    }

    /// This value as a JSON value.
    pub fn to_json(&self) -> (j: Json)
        ensures
            j@ == self.spec_to_json(),
    {
        Json::text(self.as_wire())
    }

    /// Reads a value from a JSON value; `None` where it stands for none.
    pub fn from_json(j: &Json) -> (value: Option<Self>)
        ensures
            value == Self::spec_from_json(j@),
    {
        match j.as_str() {
            Some(name) => Self::from_wire(name),
            None => None,
        }
    }

    /// Every value is read back from its name on the wire.
    pub proof fn lemma_wire_round_trip(self)
        ensures
            Self::spec_from_wire(self.spec_wire()) == Some(self),
    {
        reveal_strlit("synchronized");
        reveal_strlit("error");
        assert("synchronized"@.len() != "error"@.len());
    }

    /// Every value is read back from its JSON value.
    pub proof fn lemma_json_round_trip(self)
        ensures
            Self::spec_from_json(self.spec_to_json()) == Some(self),
            !(self.spec_to_json() is Null),
    {
        self.lemma_wire_round_trip();
    }
}

/// The state that a server reports.
#[derive(Debug, Clone)]
pub struct ServerState {
    /// What is playing.
    pub metadata: Option<MetadataState>,
    /// What a controller can do.
    pub controller: Option<ControllerState>,
}

/// A `ServerState` over plain values.
pub ghost struct ServerStateModel {
    pub metadata: Option<MetadataStateModel>,
    pub controller: Option<ControllerStateModel>,
}

impl View for ServerState {
    type V = ServerStateModel;

    open spec fn view(&self) -> ServerStateModel {
        ServerStateModel {
            metadata: match self.metadata {
                Some(x) => Some(x@),
                None => None,
            },
            controller: match self.controller {
                Some(x) => Some(x@),
                None => None,
            },
        }
    }
}

impl ServerStateModel {
    /// The record on the wire: each member under its name, and an absent
    /// optional member left out.
    pub open spec fn encode(self) -> JsonModel {
        let m0 = Seq::<(Seq<char>, JsonModel)>::empty();
        let m1 = put_opt(
            m0,
            "metadata"@,
            match self.metadata {
                Some(x) => Some(x.encode()),
                None => None,
            },
        );
        let m2 = put_opt(
            m1,
            "controller"@,
            match self.controller {
                Some(x) => Some(x.encode()),
                None => None,
            },
        );
        JsonModel::Object(m2)
    }

    /// The value that a record on the wire stands for. The record must be
    /// an object. A required member must be there and of its type. An
    /// optional member may be absent or `null`, and must else be of its
    /// type. Members of other names are passed over.
    pub open spec fn decode(j: JsonModel) -> Option<ServerStateModel> {
        match j {
            JsonModel::Object(members) => {
                let metadata = match present(members, "metadata"@) {
                    Some(v) => found(MetadataStateModel::decode(v)),
                    None => Some(None),
                };
                let controller = match present(members, "controller"@) {
                    Some(v) => found(ControllerStateModel::decode(v)),
                    None => Some(None),
                };
                let complete = metadata is Some
                    && controller is Some;
                if complete {
                    Some(ServerStateModel {
                        metadata: metadata->Some_0,
                        controller: controller->Some_0,
                    })
                } else {
                    None
                }
            },
            _ => None,
        }
    }

    /// Every value is read back from its record on the wire.
    pub proof fn lemma_round_trip(self)
        ensures
            Self::decode(self.encode()) == Some(self),
            self.encode() is Object,
    {
        reveal_strlit("metadata");
        reveal_strlit("controller");
        assert("metadata"@.len() != "controller"@.len());
        let m0 = Seq::<(Seq<char>, JsonModel)>::empty();
        let v1 = match self.metadata {
            Some(x) => Some(x.encode()),
            None => None,
        };
        let m1 = put_opt(m0, "metadata"@, v1);
        let v2 = match self.controller {
            Some(x) => Some(x.encode()),
            None => None,
        };
        let m2 = put_opt(m1, "controller"@, v2);
        assert(self.encode() == JsonModel::Object(m2));
        assert(lookup(m2, "metadata"@) == v1) by {
            lemma_lookup_put_opt(m1, "controller"@, v2, "metadata"@);
            lemma_lookup_put_opt(m0, "metadata"@, v1, "metadata"@);
        }
        assert(lookup(m2, "controller"@) == v2) by {
            lemma_lookup_put_opt(m1, "controller"@, v2, "controller"@);
            lemma_lookup_put_opt(m0, "metadata"@, v1, "controller"@);
        }
        if self.metadata is Some {
            self.metadata->Some_0.lemma_round_trip();
        }
        if self.controller is Some {
            self.controller->Some_0.lemma_round_trip();
        }
    }

    /// Whether every number of the value is a whole number: none is kept
    /// as text.
    pub open spec fn whole(self) -> bool {
        (self.metadata matches Some(x) ==> x.whole())
    }

    /// The record of a value whose numbers are whole holds whole numbers only.
    pub proof fn lemma_whole(self)
        requires
            self.whole(),
        ensures
            whole_numbers(self.encode()),
    {
        let m0 = Seq::<(Seq<char>, JsonModel)>::empty();
        assert(whole_members(m0));
        if self.metadata is Some {
            self.metadata->Some_0.lemma_whole();
        }
        let v1 = match self.metadata {
            Some(x) => Some(x.encode()),
            None => None,
        };
        lemma_whole_put_opt(m0, "metadata"@, v1);
        let m1 = put_opt(m0, "metadata"@, v1);
        if self.controller is Some {
            self.controller->Some_0.lemma_whole();
        }
        let v2 = match self.controller {
            Some(x) => Some(x.encode()),
            None => None,
        };
        lemma_whole_put_opt(m1, "controller"@, v2);
        let m2 = put_opt(m1, "controller"@, v2);
        assert(self.encode() == JsonModel::Object(m2));
    }
}

impl ServerState {
    /// This value as its record on the wire.
    pub fn to_json(&self) -> (j: Json)
        ensures
            j@ == self@.encode(),
    {
        let mut members: Vec<Member> = no_members();
        match &self.metadata {
            Some(x) => {
                put_member(&mut members, "metadata", x.to_json());
            },
            None => {},
        }
        match &self.controller {
            Some(x) => {
                put_member(&mut members, "controller", x.to_json());
            },
            None => {},
        }
        Json::Object(members)
    }

    /// Reads a value from its record on the wire; `None` where the record
    /// stands for none.
    pub fn from_json(j: &Json) -> (r: Option<ServerState>)
        ensures
            match r {
                Some(value) => ServerStateModel::decode(j@) == Some(value@),
                None => ServerStateModel::decode(j@) is None,
            },
    {
        if !j.is_object() {
            return None;
        }
        let metadata: Option<MetadataState> = match j.get_present("metadata") {
            Some(v) => match MetadataState::from_json(v) {
                Some(x) => Some(x),
                None => {
                    return None;
                },
            },
            None => None,
        };
        let controller: Option<ControllerState> = match j.get_present("controller") {
            Some(v) => match ControllerState::from_json(v) {
                Some(x) => Some(x),
                None => {
                    return None;
                },
            },
            None => None,
        };
        Some(ServerState { metadata, controller })
    }
}

/// What is playing.
#[derive(Debug, Clone)]
pub struct MetadataState {
    /// Server time, in microseconds, from which the progress counts.
    pub timestamp: i64,
    /// Title of the track.
    pub title: Option<String>,
    /// Name of the artist.
    pub artist: Option<String>,
    /// Name of the album.
    pub album: Option<String>,
    /// Where the artwork is found.
    pub artwork_url: Option<String>,
    /// Year of release.
    pub year: Option<u32>,
    /// Number of the track, such as `3/12`.
    pub track: Option<String>,
    /// How far the track has played.
    pub progress: Option<TrackProgress>,
    /// What is repeated.
    pub repeat: Option<RepeatMode>,
    /// Whether the order is shuffled.
    pub shuffle: Option<bool>,
}

/// A `MetadataState` over plain values.
pub ghost struct MetadataStateModel {
    pub timestamp: i64,
    pub title: Option<Seq<char>>,
    pub artist: Option<Seq<char>>,
    pub album: Option<Seq<char>>,
    pub artwork_url: Option<Seq<char>>,
    pub year: Option<u32>,
    pub track: Option<Seq<char>>,
    pub progress: Option<TrackProgressModel>,
    pub repeat: Option<RepeatMode>,
    pub shuffle: Option<bool>,
}

impl View for MetadataState {
    type V = MetadataStateModel;

    open spec fn view(&self) -> MetadataStateModel {
        MetadataStateModel {
            timestamp: self.timestamp,
            title: match self.title {
                Some(x) => Some(x@),
                None => None,
            },
            artist: match self.artist {
                Some(x) => Some(x@),
                None => None,
            },
            album: match self.album {
                Some(x) => Some(x@),
                None => None,
            },
            artwork_url: match self.artwork_url {
                Some(x) => Some(x@),
                None => None,
            },
            year: self.year,
            track: match self.track {
                Some(x) => Some(x@),
                None => None,
            },
            progress: match self.progress {
                Some(x) => Some(x@),
                None => None,
            },
            repeat: self.repeat,
            shuffle: self.shuffle,
        }
    }
}

impl MetadataStateModel {
    /// The record on the wire: each member under its name, and an absent
    /// optional member left out.
    pub open spec fn encode(self) -> JsonModel {
        let m0 = Seq::<(Seq<char>, JsonModel)>::empty();
        let m1 = put(m0, "timestamp"@, JsonModel::Int(self.timestamp as int));
        let m2 = put_opt(
            m1,
            "title"@,
            match self.title {
                Some(x) => Some(JsonModel::Str(x)),
                None => None,
            },
        );
        let m3 = put_opt(
            m2,
            "artist"@,
            match self.artist {
                Some(x) => Some(JsonModel::Str(x)),
                None => None,
            },
        );
        let m4 = put_opt(
            m3,
            "album"@,
            match self.album {
                Some(x) => Some(JsonModel::Str(x)),
                None => None,
            },
        );
        let m5 = put_opt(
            m4,
            "artwork_url"@,
            match self.artwork_url {
                Some(x) => Some(JsonModel::Str(x)),
                None => None,
            },
        );
        let m6 = put_opt(
            m5,
            "year"@,
            match self.year {
                Some(x) => Some(JsonModel::Int(x as int)),
                None => None,
            },
        );
        let m7 = put_opt(
            m6,
            "track"@,
            match self.track {
                Some(x) => Some(JsonModel::Str(x)),
                None => None,
            },
        );
        let m8 = put_opt(
            m7,
            "progress"@,
            match self.progress {
                Some(x) => Some(x.encode()),
                None => None,
            },
        );
        let m9 = put_opt(
            m8,
            "repeat"@,
            match self.repeat {
                Some(x) => Some(x.spec_to_json()),
                None => None,
            },
        );
        let m10 = put_opt(
            m9,
            "shuffle"@,
            match self.shuffle {
                Some(x) => Some(JsonModel::Bool(x)),
                None => None,
            },
        );
        JsonModel::Object(m10)
    }

    /// The value that a record on the wire stands for. The record must be
    /// an object. A required member must be there and of its type. An
    /// optional member may be absent or `null`, and must else be of its
    /// type. Members of other names are passed over.
    pub open spec fn decode(j: JsonModel) -> Option<MetadataStateModel> {
        match j {
            JsonModel::Object(members) => {
                let timestamp = match lookup(members, "timestamp"@) {
                    Some(v) => v.as_i64(),
                    None => None,
                };
                let title = match present(members, "title"@) {
                    Some(v) => found(v.as_str()),
                    None => Some(None),
                };
                let artist = match present(members, "artist"@) {
                    Some(v) => found(v.as_str()),
                    None => Some(None),
                };
                let album = match present(members, "album"@) {
                    Some(v) => found(v.as_str()),
                    None => Some(None),
                };
                let artwork_url = match present(members, "artwork_url"@) {
                    Some(v) => found(v.as_str()),
                    None => Some(None),
                };
                let year = match present(members, "year"@) {
                    Some(v) => found(v.as_u32()),
                    None => Some(None),
                };
                let track = match present(members, "track"@) {
                    Some(v) => found(v.as_str()),
                    None => Some(None),
                };
                let progress = match present(members, "progress"@) {
                    Some(v) => found(TrackProgressModel::decode(v)),
                    None => Some(None),
                };
                let repeat = match present(members, "repeat"@) {
                    Some(v) => found(RepeatMode::spec_from_json(v)),
                    None => Some(None),
                };
                let shuffle = match present(members, "shuffle"@) {
                    Some(v) => found(v.as_bool()),
                    None => Some(None),
                };
                let complete = timestamp is Some
                    && title is Some
                    && artist is Some
                    && album is Some
                    && artwork_url is Some
                    && year is Some
                    && track is Some
                    && progress is Some
                    && repeat is Some
                    && shuffle is Some;
                if complete {
                    Some(MetadataStateModel {
                        timestamp: timestamp->Some_0,
                        title: title->Some_0,
                        artist: artist->Some_0,
                        album: album->Some_0,
                        artwork_url: artwork_url->Some_0,
                        year: year->Some_0,
                        track: track->Some_0,
                        progress: progress->Some_0,
                        repeat: repeat->Some_0,
                        shuffle: shuffle->Some_0,
                    })
                } else {
                    None
                }
            },
            _ => None,
        }
    }

    /// Every value is read back from its record on the wire.
    pub proof fn lemma_round_trip(self)
        ensures
            Self::decode(self.encode()) == Some(self),
            self.encode() is Object,
    {
        reveal_strlit("timestamp");
        reveal_strlit("title");
        reveal_strlit("artist");
        reveal_strlit("album");
        reveal_strlit("artwork_url");
        reveal_strlit("year");
        reveal_strlit("track");
        reveal_strlit("progress");
        reveal_strlit("repeat");
        reveal_strlit("shuffle");
        assert("timestamp"@.len() != "title"@.len());
        assert("timestamp"@.len() != "artist"@.len());
        assert("timestamp"@.len() != "album"@.len());
        assert("timestamp"@.len() != "artwork_url"@.len());
        assert("timestamp"@.len() != "year"@.len());
        assert("timestamp"@.len() != "track"@.len());
        assert("timestamp"@.len() != "progress"@.len());
        assert("timestamp"@.len() != "repeat"@.len());
        assert("timestamp"@.len() != "shuffle"@.len());
        assert("title"@.len() != "artist"@.len());
        assert("title"@[0] != "album"@[0]);
        assert("title"@.len() != "artwork_url"@.len());
        assert("title"@.len() != "year"@.len());
        assert("title"@[1] != "track"@[1]);
        assert("title"@.len() != "progress"@.len());
        assert("title"@.len() != "repeat"@.len());
        assert("title"@.len() != "shuffle"@.len());
        assert("artist"@.len() != "album"@.len());
        assert("artist"@.len() != "artwork_url"@.len());
        assert("artist"@.len() != "year"@.len());
        assert("artist"@.len() != "track"@.len());
        assert("artist"@.len() != "progress"@.len());
        assert("artist"@[0] != "repeat"@[0]);
        assert("artist"@.len() != "shuffle"@.len());
        assert("album"@.len() != "artwork_url"@.len());
        assert("album"@.len() != "year"@.len());
        assert("album"@[0] != "track"@[0]);
        assert("album"@.len() != "progress"@.len());
        assert("album"@.len() != "repeat"@.len());
        assert("album"@.len() != "shuffle"@.len());
        assert("artwork_url"@.len() != "year"@.len());
        assert("artwork_url"@.len() != "track"@.len());
        assert("artwork_url"@.len() != "progress"@.len());
        assert("artwork_url"@.len() != "repeat"@.len());
        assert("artwork_url"@.len() != "shuffle"@.len());
        assert("year"@.len() != "track"@.len());
        assert("year"@.len() != "progress"@.len());
        assert("year"@.len() != "repeat"@.len());
        assert("year"@.len() != "shuffle"@.len());
        assert("track"@.len() != "progress"@.len());
        assert("track"@.len() != "repeat"@.len());
        assert("track"@.len() != "shuffle"@.len());
        assert("progress"@.len() != "repeat"@.len());
        assert("progress"@.len() != "shuffle"@.len());
        assert("repeat"@.len() != "shuffle"@.len());
        let m0 = Seq::<(Seq<char>, JsonModel)>::empty();
        let v1 = JsonModel::Int(self.timestamp as int);
        let m1 = put(m0, "timestamp"@, v1);
        let v2 = match self.title {
            Some(x) => Some(JsonModel::Str(x)),
            None => None,
        };
        let m2 = put_opt(m1, "title"@, v2);
        let v3 = match self.artist {
            Some(x) => Some(JsonModel::Str(x)),
            None => None,
        };
        let m3 = put_opt(m2, "artist"@, v3);
        let v4 = match self.album {
            Some(x) => Some(JsonModel::Str(x)),
            None => None,
        };
        let m4 = put_opt(m3, "album"@, v4);
        let v5 = match self.artwork_url {
            Some(x) => Some(JsonModel::Str(x)),
            None => None,
        };
        let m5 = put_opt(m4, "artwork_url"@, v5);
        let v6 = match self.year {
            Some(x) => Some(JsonModel::Int(x as int)),
            None => None,
        };
        let m6 = put_opt(m5, "year"@, v6);
        let v7 = match self.track {
            Some(x) => Some(JsonModel::Str(x)),
            None => None,
        };
        let m7 = put_opt(m6, "track"@, v7);
        let v8 = match self.progress {
            Some(x) => Some(x.encode()),
            None => None,
        };
        let m8 = put_opt(m7, "progress"@, v8);
        let v9 = match self.repeat {
            Some(x) => Some(x.spec_to_json()),
            None => None,
        };
        let m9 = put_opt(m8, "repeat"@, v9);
        let v10 = match self.shuffle {
            Some(x) => Some(JsonModel::Bool(x)),
            None => None,
        };
        let m10 = put_opt(m9, "shuffle"@, v10);
        assert(self.encode() == JsonModel::Object(m10));
        assert(lookup(m10, "timestamp"@) == Some(v1)) by {
            lemma_lookup_put_opt(m9, "shuffle"@, v10, "timestamp"@);
            lemma_lookup_put_opt(m8, "repeat"@, v9, "timestamp"@);
            lemma_lookup_put_opt(m7, "progress"@, v8, "timestamp"@);
            lemma_lookup_put_opt(m6, "track"@, v7, "timestamp"@);
            lemma_lookup_put_opt(m5, "year"@, v6, "timestamp"@);
            lemma_lookup_put_opt(m4, "artwork_url"@, v5, "timestamp"@);
            lemma_lookup_put_opt(m3, "album"@, v4, "timestamp"@);
            lemma_lookup_put_opt(m2, "artist"@, v3, "timestamp"@);
            lemma_lookup_put_opt(m1, "title"@, v2, "timestamp"@);
            lemma_lookup_put(m0, "timestamp"@, v1, "timestamp"@);
        }
        assert(lookup(m10, "title"@) == v2) by {
            lemma_lookup_put_opt(m9, "shuffle"@, v10, "title"@);
            lemma_lookup_put_opt(m8, "repeat"@, v9, "title"@);
            lemma_lookup_put_opt(m7, "progress"@, v8, "title"@);
            lemma_lookup_put_opt(m6, "track"@, v7, "title"@);
            lemma_lookup_put_opt(m5, "year"@, v6, "title"@);
            lemma_lookup_put_opt(m4, "artwork_url"@, v5, "title"@);
            lemma_lookup_put_opt(m3, "album"@, v4, "title"@);
            lemma_lookup_put_opt(m2, "artist"@, v3, "title"@);
            lemma_lookup_put_opt(m1, "title"@, v2, "title"@);
            lemma_lookup_put(m0, "timestamp"@, v1, "title"@);
        }
        assert(lookup(m10, "artist"@) == v3) by {
            lemma_lookup_put_opt(m9, "shuffle"@, v10, "artist"@);
            lemma_lookup_put_opt(m8, "repeat"@, v9, "artist"@);
            lemma_lookup_put_opt(m7, "progress"@, v8, "artist"@);
            lemma_lookup_put_opt(m6, "track"@, v7, "artist"@);
            lemma_lookup_put_opt(m5, "year"@, v6, "artist"@);
            lemma_lookup_put_opt(m4, "artwork_url"@, v5, "artist"@);
            lemma_lookup_put_opt(m3, "album"@, v4, "artist"@);
            lemma_lookup_put_opt(m2, "artist"@, v3, "artist"@);
            lemma_lookup_put_opt(m1, "title"@, v2, "artist"@);
            lemma_lookup_put(m0, "timestamp"@, v1, "artist"@);
        }
        assert(lookup(m10, "album"@) == v4) by {
            lemma_lookup_put_opt(m9, "shuffle"@, v10, "album"@);
            lemma_lookup_put_opt(m8, "repeat"@, v9, "album"@);
            lemma_lookup_put_opt(m7, "progress"@, v8, "album"@);
            lemma_lookup_put_opt(m6, "track"@, v7, "album"@);
            lemma_lookup_put_opt(m5, "year"@, v6, "album"@);
            lemma_lookup_put_opt(m4, "artwork_url"@, v5, "album"@);
            lemma_lookup_put_opt(m3, "album"@, v4, "album"@);
            lemma_lookup_put_opt(m2, "artist"@, v3, "album"@);
            lemma_lookup_put_opt(m1, "title"@, v2, "album"@);
            lemma_lookup_put(m0, "timestamp"@, v1, "album"@);
        }
        assert(lookup(m10, "artwork_url"@) == v5) by {
            lemma_lookup_put_opt(m9, "shuffle"@, v10, "artwork_url"@);
            lemma_lookup_put_opt(m8, "repeat"@, v9, "artwork_url"@);
            lemma_lookup_put_opt(m7, "progress"@, v8, "artwork_url"@);
            lemma_lookup_put_opt(m6, "track"@, v7, "artwork_url"@);
            lemma_lookup_put_opt(m5, "year"@, v6, "artwork_url"@);
            lemma_lookup_put_opt(m4, "artwork_url"@, v5, "artwork_url"@);
            lemma_lookup_put_opt(m3, "album"@, v4, "artwork_url"@);
            lemma_lookup_put_opt(m2, "artist"@, v3, "artwork_url"@);
            lemma_lookup_put_opt(m1, "title"@, v2, "artwork_url"@);
            lemma_lookup_put(m0, "timestamp"@, v1, "artwork_url"@);
        }
        assert(lookup(m10, "year"@) == v6) by {
            lemma_lookup_put_opt(m9, "shuffle"@, v10, "year"@);
            lemma_lookup_put_opt(m8, "repeat"@, v9, "year"@);
            lemma_lookup_put_opt(m7, "progress"@, v8, "year"@);
            lemma_lookup_put_opt(m6, "track"@, v7, "year"@);
            lemma_lookup_put_opt(m5, "year"@, v6, "year"@);
            lemma_lookup_put_opt(m4, "artwork_url"@, v5, "year"@);
            lemma_lookup_put_opt(m3, "album"@, v4, "year"@);
            lemma_lookup_put_opt(m2, "artist"@, v3, "year"@);
            lemma_lookup_put_opt(m1, "title"@, v2, "year"@);
            lemma_lookup_put(m0, "timestamp"@, v1, "year"@);
        }
        assert(lookup(m10, "track"@) == v7) by {
            lemma_lookup_put_opt(m9, "shuffle"@, v10, "track"@);
            lemma_lookup_put_opt(m8, "repeat"@, v9, "track"@);
            lemma_lookup_put_opt(m7, "progress"@, v8, "track"@);
            lemma_lookup_put_opt(m6, "track"@, v7, "track"@);
            lemma_lookup_put_opt(m5, "year"@, v6, "track"@);
            lemma_lookup_put_opt(m4, "artwork_url"@, v5, "track"@);
            lemma_lookup_put_opt(m3, "album"@, v4, "track"@);
            lemma_lookup_put_opt(m2, "artist"@, v3, "track"@);
            lemma_lookup_put_opt(m1, "title"@, v2, "track"@);
            lemma_lookup_put(m0, "timestamp"@, v1, "track"@);
        }
        assert(lookup(m10, "progress"@) == v8) by {
            lemma_lookup_put_opt(m9, "shuffle"@, v10, "progress"@);
            lemma_lookup_put_opt(m8, "repeat"@, v9, "progress"@);
            lemma_lookup_put_opt(m7, "progress"@, v8, "progress"@);
            lemma_lookup_put_opt(m6, "track"@, v7, "progress"@);
            lemma_lookup_put_opt(m5, "year"@, v6, "progress"@);
            lemma_lookup_put_opt(m4, "artwork_url"@, v5, "progress"@);
            lemma_lookup_put_opt(m3, "album"@, v4, "progress"@);
            lemma_lookup_put_opt(m2, "artist"@, v3, "progress"@);
            lemma_lookup_put_opt(m1, "title"@, v2, "progress"@);
            lemma_lookup_put(m0, "timestamp"@, v1, "progress"@);
        }
        assert(lookup(m10, "repeat"@) == v9) by {
            lemma_lookup_put_opt(m9, "shuffle"@, v10, "repeat"@);
            lemma_lookup_put_opt(m8, "repeat"@, v9, "repeat"@);
            lemma_lookup_put_opt(m7, "progress"@, v8, "repeat"@);
            lemma_lookup_put_opt(m6, "track"@, v7, "repeat"@);
            lemma_lookup_put_opt(m5, "year"@, v6, "repeat"@);
            lemma_lookup_put_opt(m4, "artwork_url"@, v5, "repeat"@);
            lemma_lookup_put_opt(m3, "album"@, v4, "repeat"@);
            lemma_lookup_put_opt(m2, "artist"@, v3, "repeat"@);
            lemma_lookup_put_opt(m1, "title"@, v2, "repeat"@);
            lemma_lookup_put(m0, "timestamp"@, v1, "repeat"@);
        }
        assert(lookup(m10, "shuffle"@) == v10) by {
            lemma_lookup_put_opt(m9, "shuffle"@, v10, "shuffle"@);
            lemma_lookup_put_opt(m8, "repeat"@, v9, "shuffle"@);
            lemma_lookup_put_opt(m7, "progress"@, v8, "shuffle"@);
            lemma_lookup_put_opt(m6, "track"@, v7, "shuffle"@);
            lemma_lookup_put_opt(m5, "year"@, v6, "shuffle"@);
            lemma_lookup_put_opt(m4, "artwork_url"@, v5, "shuffle"@);
            lemma_lookup_put_opt(m3, "album"@, v4, "shuffle"@);
            lemma_lookup_put_opt(m2, "artist"@, v3, "shuffle"@);
            lemma_lookup_put_opt(m1, "title"@, v2, "shuffle"@);
            lemma_lookup_put(m0, "timestamp"@, v1, "shuffle"@);
        }
        if self.progress is Some {
            self.progress->Some_0.lemma_round_trip();
        }
        if self.repeat is Some {
            self.repeat->Some_0.lemma_json_round_trip();
        }
    }

    /// Whether every number of the value is a whole number: none is kept
    /// as text.
    pub open spec fn whole(self) -> bool {
        (self.progress matches Some(x) ==> x.whole())
    }

    /// The record of a value whose numbers are whole holds whole numbers only.
    pub proof fn lemma_whole(self)
        requires
            self.whole(),
        ensures
            whole_numbers(self.encode()),
    {
        let m0 = Seq::<(Seq<char>, JsonModel)>::empty();
        assert(whole_members(m0));
        let v1 = JsonModel::Int(self.timestamp as int);
        lemma_whole_put(m0, "timestamp"@, v1);
        let m1 = put(m0, "timestamp"@, v1);
        let v2 = match self.title {
            Some(x) => Some(JsonModel::Str(x)),
            None => None,
        };
        lemma_whole_put_opt(m1, "title"@, v2);
        let m2 = put_opt(m1, "title"@, v2);
        let v3 = match self.artist {
            Some(x) => Some(JsonModel::Str(x)),
            None => None,
        };
        lemma_whole_put_opt(m2, "artist"@, v3);
        let m3 = put_opt(m2, "artist"@, v3);
        let v4 = match self.album {
            Some(x) => Some(JsonModel::Str(x)),
            None => None,
        };
        lemma_whole_put_opt(m3, "album"@, v4);
        let m4 = put_opt(m3, "album"@, v4);
        let v5 = match self.artwork_url {
            Some(x) => Some(JsonModel::Str(x)),
            None => None,
        };
        lemma_whole_put_opt(m4, "artwork_url"@, v5);
        let m5 = put_opt(m4, "artwork_url"@, v5);
        let v6 = match self.year {
            Some(x) => Some(JsonModel::Int(x as int)),
            None => None,
        };
        lemma_whole_put_opt(m5, "year"@, v6);
        let m6 = put_opt(m5, "year"@, v6);
        let v7 = match self.track {
            Some(x) => Some(JsonModel::Str(x)),
            None => None,
        };
        lemma_whole_put_opt(m6, "track"@, v7);
        let m7 = put_opt(m6, "track"@, v7);
        if self.progress is Some {
            self.progress->Some_0.lemma_whole();
        }
        let v8 = match self.progress {
            Some(x) => Some(x.encode()),
            None => None,
        };
        lemma_whole_put_opt(m7, "progress"@, v8);
        let m8 = put_opt(m7, "progress"@, v8);
        let v9 = match self.repeat {
            Some(x) => Some(x.spec_to_json()),
            None => None,
        };
        lemma_whole_put_opt(m8, "repeat"@, v9);
        let m9 = put_opt(m8, "repeat"@, v9);
        let v10 = match self.shuffle {
            Some(x) => Some(JsonModel::Bool(x)),
            None => None,
        };
        lemma_whole_put_opt(m9, "shuffle"@, v10);
        let m10 = put_opt(m9, "shuffle"@, v10);
        assert(self.encode() == JsonModel::Object(m10));
    }
}

impl MetadataState {
    /// This value as its record on the wire.
    pub fn to_json(&self) -> (j: Json)
        ensures
            j@ == self@.encode(),
    {
        let mut members: Vec<Member> = no_members();
        put_member(&mut members, "timestamp", Json::Int(self.timestamp));
        match &self.title {
            Some(x) => {
                put_member(&mut members, "title", Json::Str(x.clone()));
            },
            None => {},
        }
        match &self.artist {
            Some(x) => {
                put_member(&mut members, "artist", Json::Str(x.clone()));
            },
            None => {},
        }
        match &self.album {
            Some(x) => {
                put_member(&mut members, "album", Json::Str(x.clone()));
            },
            None => {},
        }
        match &self.artwork_url {
            Some(x) => {
                put_member(&mut members, "artwork_url", Json::Str(x.clone()));
            },
            None => {},
        }
        match &self.year {
            Some(x) => {
                put_member(&mut members, "year", Json::Int(*x as i64));
            },
            None => {},
        }
        match &self.track {
            Some(x) => {
                put_member(&mut members, "track", Json::Str(x.clone()));
            },
            None => {},
        }
        match &self.progress {
            Some(x) => {
                put_member(&mut members, "progress", x.to_json());
            },
            None => {},
        }
        match &self.repeat {
            Some(x) => {
                put_member(&mut members, "repeat", x.to_json());
            },
            None => {},
        }
        match &self.shuffle {
            Some(x) => {
                put_member(&mut members, "shuffle", Json::Bool(*x));
            },
            None => {},
        }
        Json::Object(members)
    }

    /// Reads a value from its record on the wire; `None` where the record
    /// stands for none.
    pub fn from_json(j: &Json) -> (r: Option<MetadataState>)
        ensures
            match r {
                Some(value) => MetadataStateModel::decode(j@) == Some(value@),
                None => MetadataStateModel::decode(j@) is None,
            },
    {
        if !j.is_object() {
            return None;
        }
        let timestamp: i64 = match j.get("timestamp") {
            Some(v) => match v.as_i64() {
                Some(x) => x,
                None => {
                    return None;
                },
            },
            None => {
                return None;
            },
        };
        let title: Option<String> = match j.get_present("title") {
            Some(v) => match v.as_string() {
                Some(x) => Some(x),
                None => {
                    return None;
                },
            },
            None => None,
        };
        let artist: Option<String> = match j.get_present("artist") {
            Some(v) => match v.as_string() {
                Some(x) => Some(x),
                None => {
                    return None;
                },
            },
            None => None,
        };
        let album: Option<String> = match j.get_present("album") {
            Some(v) => match v.as_string() {
                Some(x) => Some(x),
                None => {
                    return None;
                },
            },
            None => None,
        };
        let artwork_url: Option<String> = match j.get_present("artwork_url") {
            Some(v) => match v.as_string() {
                Some(x) => Some(x),
                None => {
                    return None;
                },
            },
            None => None,
        };
        let year: Option<u32> = match j.get_present("year") {
            Some(v) => match v.as_u32() {
                Some(x) => Some(x),
                None => {
                    return None;
                },
            },
            None => None,
        };
        let track: Option<String> = match j.get_present("track") {
            Some(v) => match v.as_string() {
                Some(x) => Some(x),
                None => {
                    return None;
                },
            },
            None => None,
        };
        let progress: Option<TrackProgress> = match j.get_present("progress") {
            Some(v) => match TrackProgress::from_json(v) {
                Some(x) => Some(x),
                None => {
                    return None;
                },
            },
            None => None,
        };
        let repeat: Option<RepeatMode> = match j.get_present("repeat") {
            Some(v) => match RepeatMode::from_json(v) {
                Some(x) => Some(x),
                None => {
                    return None;
                },
            },
            None => None,
        };
        let shuffle: Option<bool> = match j.get_present("shuffle") {
            Some(v) => match v.as_bool() {
                Some(x) => Some(x),
                None => {
                    return None;
                },
            },
            None => None,
        };
        Some(MetadataState {
            timestamp,
            title,
            artist,
            album,
            artwork_url,
            year,
            track,
            progress,
            repeat,
            shuffle,
        })
    }
}

/// How far a track has played.
#[derive(Debug, Clone)]
pub struct TrackProgress {
    /// Position in microseconds.
    pub position: i64,
    /// Length in microseconds.
    pub duration: i64,
    /// Playback speed as the wire gives it: 1 is normal, 0 is paused.
    pub playback_speed: Option<Number>,
}

/// A `TrackProgress` over plain values.
pub ghost struct TrackProgressModel {
    pub position: i64,
    pub duration: i64,
    pub playback_speed: Option<NumberModel>,
}

impl View for TrackProgress {
    type V = TrackProgressModel;

    open spec fn view(&self) -> TrackProgressModel {
        TrackProgressModel {
            position: self.position,
            duration: self.duration,
            playback_speed: match self.playback_speed {
                Some(x) => Some(x@),
                None => None,
            },
        }
    }
}

impl TrackProgressModel {
    /// The record on the wire: each member under its name, and an absent
    /// optional member left out.
    pub open spec fn encode(self) -> JsonModel {
        let m0 = Seq::<(Seq<char>, JsonModel)>::empty();
        let m1 = put(m0, "position"@, JsonModel::Int(self.position as int));
        let m2 = put(m1, "duration"@, JsonModel::Int(self.duration as int));
        let m3 = put_opt(
            m2,
            "playback_speed"@,
            match self.playback_speed {
                Some(x) => Some(x.encode()),
                None => None,
            },
        );
        JsonModel::Object(m3)
    }

    /// The value that a record on the wire stands for. The record must be
    /// an object. A required member must be there and of its type. An
    /// optional member may be absent or `null`, and must else be of its
    /// type. Members of other names are passed over.
    pub open spec fn decode(j: JsonModel) -> Option<TrackProgressModel> {
        match j {
            JsonModel::Object(members) => {
                let position = match lookup(members, "position"@) {
                    Some(v) => v.as_i64(),
                    None => None,
                };
                let duration = match lookup(members, "duration"@) {
                    Some(v) => v.as_i64(),
                    None => None,
                };
                let playback_speed = match present(members, "playback_speed"@) {
                    Some(v) => found(NumberModel::decode(v)),
                    None => Some(None),
                };
                let complete = position is Some
                    && duration is Some
                    && playback_speed is Some;
                if complete {
                    Some(TrackProgressModel {
                        position: position->Some_0,
                        duration: duration->Some_0,
                        playback_speed: playback_speed->Some_0,
                    })
                } else {
                    None
                }
            },
            _ => None,
        }
    }

    /// Every value is read back from its record on the wire.
    pub proof fn lemma_round_trip(self)
        ensures
            Self::decode(self.encode()) == Some(self),
            self.encode() is Object,
    {
        reveal_strlit("position");
        reveal_strlit("duration");
        reveal_strlit("playback_speed");
        assert("position"@[0] != "duration"@[0]);
        assert("position"@.len() != "playback_speed"@.len());
        assert("duration"@.len() != "playback_speed"@.len());
        let m0 = Seq::<(Seq<char>, JsonModel)>::empty();
        let v1 = JsonModel::Int(self.position as int);
        let m1 = put(m0, "position"@, v1);
        let v2 = JsonModel::Int(self.duration as int);
        let m2 = put(m1, "duration"@, v2);
        let v3 = match self.playback_speed {
            Some(x) => Some(x.encode()),
            None => None,
        };
        let m3 = put_opt(m2, "playback_speed"@, v3);
        assert(self.encode() == JsonModel::Object(m3));
        assert(lookup(m3, "position"@) == Some(v1)) by {
            lemma_lookup_put_opt(m2, "playback_speed"@, v3, "position"@);
            lemma_lookup_put(m1, "duration"@, v2, "position"@);
            lemma_lookup_put(m0, "position"@, v1, "position"@);
        }
        assert(lookup(m3, "duration"@) == Some(v2)) by {
            lemma_lookup_put_opt(m2, "playback_speed"@, v3, "duration"@);
            lemma_lookup_put(m1, "duration"@, v2, "duration"@);
        }
        assert(lookup(m3, "playback_speed"@) == v3) by {
            lemma_lookup_put_opt(m2, "playback_speed"@, v3, "playback_speed"@);
            lemma_lookup_put(m1, "duration"@, v2, "playback_speed"@);
            lemma_lookup_put(m0, "position"@, v1, "playback_speed"@);
        }
        if self.playback_speed is Some {
            self.playback_speed->Some_0.lemma_round_trip();
        }
    }

    /// Whether every number of the value is a whole number: none is kept
    /// as text.
    pub open spec fn whole(self) -> bool {
        (self.playback_speed matches Some(x) ==> x is Int)
    }

    /// The record of a value whose numbers are whole holds whole numbers only.
    pub proof fn lemma_whole(self)
        requires
            self.whole(),
        ensures
            whole_numbers(self.encode()),
    {
        let m0 = Seq::<(Seq<char>, JsonModel)>::empty();
        assert(whole_members(m0));
        let v1 = JsonModel::Int(self.position as int);
        lemma_whole_put(m0, "position"@, v1);
        let m1 = put(m0, "position"@, v1);
        let v2 = JsonModel::Int(self.duration as int);
        lemma_whole_put(m1, "duration"@, v2);
        let m2 = put(m1, "duration"@, v2);
        let v3 = match self.playback_speed {
            Some(x) => Some(x.encode()),
            None => None,
        };
        lemma_whole_put_opt(m2, "playback_speed"@, v3);
        let m3 = put_opt(m2, "playback_speed"@, v3);
        assert(self.encode() == JsonModel::Object(m3));
    }
}

impl TrackProgress {
    /// This value as its record on the wire.
    pub fn to_json(&self) -> (j: Json)
        ensures
            j@ == self@.encode(),
    {
        let mut members: Vec<Member> = no_members();
        put_member(&mut members, "position", Json::Int(self.position));
        put_member(&mut members, "duration", Json::Int(self.duration));
        match &self.playback_speed {
            Some(x) => {
                put_member(&mut members, "playback_speed", x.to_json());
            },
            None => {},
        }
        Json::Object(members)
    }

    /// Reads a value from its record on the wire; `None` where the record
    /// stands for none.
    pub fn from_json(j: &Json) -> (r: Option<TrackProgress>)
        ensures
            match r {
                Some(value) => TrackProgressModel::decode(j@) == Some(value@),
                None => TrackProgressModel::decode(j@) is None,
            },
    {
        if !j.is_object() {
            return None;
        }
        let position: i64 = match j.get("position") {
            Some(v) => match v.as_i64() {
                Some(x) => x,
                None => {
                    return None;
                },
            },
            None => {
                return None;
            },
        };
        let duration: i64 = match j.get("duration") {
            Some(v) => match v.as_i64() {
                Some(x) => x,
                None => {
                    return None;
                },
            },
            None => {
                return None;
            },
        };
        let playback_speed: Option<Number> = match j.get_present("playback_speed") {
            Some(v) => match Number::from_json(v) {
                Some(x) => Some(x),
                None => {
                    return None;
                },
            },
            None => None,
        };
        Some(TrackProgress { position, duration, playback_speed })
    }
}

/// What is repeated.
#[derive(Debug, Clone, Copy, PartialEq, Eq, Structural)]
pub enum RepeatMode {
    /// Nothing.
    Off,
    /// The track that plays.
    One,
    /// All tracks.
    All,
}

impl RepeatMode {
    /// The name of a value on the wire.
    pub open spec fn spec_wire(self) -> Seq<char> {
        match self {
            RepeatMode::Off => "off"@,
            RepeatMode::One => "one"@,
            RepeatMode::All => "all"@,
        }
    }

    /// The value that a name on the wire stands for, if it stands for one.
    pub open spec fn spec_from_wire(name: Seq<char>) -> Option<Self> {
        if name == "off"@ {
            Some(RepeatMode::Off)
        } else if name == "one"@ {
            Some(RepeatMode::One)
        } else if name == "all"@ {
            Some(RepeatMode::All)
        } else {
            None
        }
    }

    /// A value as a JSON value: its name on the wire, as a text.
    pub open spec fn spec_to_json(self) -> JsonModel {
        JsonModel::Str(self.spec_wire())
    }

    /// The value that a JSON value stands for: it must be a text, and a name on the wire.
    pub open spec fn spec_from_json(j: JsonModel) -> Option<Self> {
        match j {
            JsonModel::Str(name) => Self::spec_from_wire(name),
            _ => None,
        }
    }

    /// The name of this value on the wire.
    pub fn as_wire(&self) -> (name: &'static str)
        ensures
            name@ == self.spec_wire(),
    {
        match self {
            RepeatMode::Off => "off",
            RepeatMode::One => "one",
            RepeatMode::All => "all",
        }
    }

    /// Reads a name from the wire; `None` for a name that stands for no value.
    pub fn from_wire(name: &str) -> (value: Option<Self>)
        ensures
            value == Self::spec_from_wire(name@),
    {
        if same_text(name, "off") {
            Some(RepeatMode::Off)
        } else if same_text(name, "one") {
            Some(RepeatMode::One)
        } else if same_text(name, "all") {
            Some(RepeatMode::All)
        } else {
            None
        }
    }

    /// This value as a JSON value.
    pub fn to_json(&self) -> (j: Json)
        ensures
            j@ == self.spec_to_json(),
    {
        Json::text(self.as_wire())
    }

    /// Reads a value from a JSON value; `None` where it stands for none.
    pub fn from_json(j: &Json) -> (value: Option<Self>)
        ensures
            value == Self::spec_from_json(j@),
    {
        match j.as_str() {
            Some(name) => Self::from_wire(name),
            None => None,
        }
    }

    /// Every value is read back from its name on the wire.
    pub proof fn lemma_wire_round_trip(self)
        ensures
            Self::spec_from_wire(self.spec_wire()) == Some(self),
    {
        reveal_strlit("off");
        reveal_strlit("one");
        reveal_strlit("all");
        assert("off"@[1] != "one"@[1]);
        assert("off"@[0] != "all"@[0]);
        assert("one"@[0] != "all"@[0]);
    }

    /// Every value is read back from its JSON value.
    pub proof fn lemma_json_round_trip(self)
        ensures
            Self::spec_from_json(self.spec_to_json()) == Some(self),
            !(self.spec_to_json() is Null),
    {
        self.lemma_wire_round_trip();
    }
}

/// What a controller can do.
#[derive(Debug, Clone)]
pub struct ControllerState {
    /// Commands that the server obeys.
    pub supported_commands: Vec<String>,
    /// Volume, 0 to 100.
    pub volume: u8,
    /// Whether the sound is muted.
    pub muted: bool,
}

/// A `ControllerState` over plain values.
pub ghost struct ControllerStateModel {
    pub supported_commands: Seq<Seq<char>>,
    pub volume: u8,
    pub muted: bool,
}

impl View for ControllerState {
    type V = ControllerStateModel;

    open spec fn view(&self) -> ControllerStateModel {
        ControllerStateModel {
            supported_commands: texts(self.supported_commands@),
            volume: self.volume,
            muted: self.muted,
        }
    }
}

impl ControllerStateModel {
    /// The record on the wire: each member under its name, and an absent
    /// optional member left out.
    pub open spec fn encode(self) -> JsonModel {
        let m0 = Seq::<(Seq<char>, JsonModel)>::empty();
        let m1 = put(m0, "supported_commands"@, encode_texts(self.supported_commands));
        let m2 = put(m1, "volume"@, JsonModel::Int(self.volume as int));
        let m3 = put(m2, "muted"@, JsonModel::Bool(self.muted));
        JsonModel::Object(m3)
    }

    /// The value that a record on the wire stands for. The record must be
    /// an object. A required member must be there and of its type. An
    /// optional member may be absent or `null`, and must else be of its
    /// type. Members of other names are passed over.
    pub open spec fn decode(j: JsonModel) -> Option<ControllerStateModel> {
        match j {
            JsonModel::Object(members) => {
                let supported_commands = match lookup(members, "supported_commands"@) {
                    Some(v) => decode_texts(v),
                    None => None,
                };
                let volume = match lookup(members, "volume"@) {
                    Some(v) => v.as_u8(),
                    None => None,
                };
                let muted = match lookup(members, "muted"@) {
                    Some(v) => v.as_bool(),
                    None => None,
                };
                let complete = supported_commands is Some
                    && volume is Some
                    && muted is Some;
                if complete {
                    Some(ControllerStateModel {
                        supported_commands: supported_commands->Some_0,
                        volume: volume->Some_0,
                        muted: muted->Some_0,
                    })
                } else {
                    None
                }
            },
            _ => None,
        }
    }

    /// Every value is read back from its record on the wire.
    pub proof fn lemma_round_trip(self)
        ensures
            Self::decode(self.encode()) == Some(self),
            self.encode() is Object,
    {
        reveal_strlit("supported_commands");
        reveal_strlit("volume");
        reveal_strlit("muted");
        assert("supported_commands"@.len() != "volume"@.len());
        assert("supported_commands"@.len() != "muted"@.len());
        assert("volume"@.len() != "muted"@.len());
        let m0 = Seq::<(Seq<char>, JsonModel)>::empty();
        let v1 = encode_texts(self.supported_commands);
        let m1 = put(m0, "supported_commands"@, v1);
        let v2 = JsonModel::Int(self.volume as int);
        let m2 = put(m1, "volume"@, v2);
        let v3 = JsonModel::Bool(self.muted);
        let m3 = put(m2, "muted"@, v3);
        assert(self.encode() == JsonModel::Object(m3));
        assert(lookup(m3, "supported_commands"@) == Some(v1)) by {
            lemma_lookup_put(m2, "muted"@, v3, "supported_commands"@);
            lemma_lookup_put(m1, "volume"@, v2, "supported_commands"@);
            lemma_lookup_put(m0, "supported_commands"@, v1, "supported_commands"@);
        }
        assert(lookup(m3, "volume"@) == Some(v2)) by {
            lemma_lookup_put(m2, "muted"@, v3, "volume"@);
            lemma_lookup_put(m1, "volume"@, v2, "volume"@);
        }
        assert(lookup(m3, "muted"@) == Some(v3)) by {
            lemma_lookup_put(m2, "muted"@, v3, "muted"@);
        }
        lemma_texts_round_trip(self.supported_commands);
    }

    /// The record holds whole numbers only.
    pub proof fn lemma_whole(self)
        ensures
            whole_numbers(self.encode()),
    {
        let m0 = Seq::<(Seq<char>, JsonModel)>::empty();
        assert(whole_members(m0));
        lemma_whole_lists(self.supported_commands, Seq::<u8>::empty());
        let v1 = encode_texts(self.supported_commands);
        lemma_whole_put(m0, "supported_commands"@, v1);
        let m1 = put(m0, "supported_commands"@, v1);
        let v2 = JsonModel::Int(self.volume as int);
        lemma_whole_put(m1, "volume"@, v2);
        let m2 = put(m1, "volume"@, v2);
        let v3 = JsonModel::Bool(self.muted);
        lemma_whole_put(m2, "muted"@, v3);
        let m3 = put(m2, "muted"@, v3);
        assert(self.encode() == JsonModel::Object(m3));
    }
}

impl ControllerState {
    /// This value as its record on the wire.
    pub fn to_json(&self) -> (j: Json)
        ensures
            j@ == self@.encode(),
    {
        let mut members: Vec<Member> = no_members();
        put_member(&mut members, "supported_commands", texts_to_json(&self.supported_commands));
        put_member(&mut members, "volume", Json::Int(self.volume as i64));
        put_member(&mut members, "muted", Json::Bool(self.muted));
        Json::Object(members)
    }

    /// Reads a value from its record on the wire; `None` where the record
    /// stands for none.
    pub fn from_json(j: &Json) -> (r: Option<ControllerState>)
        ensures
            match r {
                Some(value) => ControllerStateModel::decode(j@) == Some(value@),
                None => ControllerStateModel::decode(j@) is None,
            },
    {
        if !j.is_object() {
            return None;
        }
        let supported_commands: Vec<String> = match j.get("supported_commands") {
            Some(v) => match texts_from_json(v) {
                Some(x) => x,
                None => {
                    return None;
                },
            },
            None => {
                return None;
            },
        };
        let volume: u8 = match j.get("volume") {
            Some(v) => match v.as_u8() {
                Some(x) => x,
                None => {
                    return None;
                },
            },
            None => {
                return None;
            },
        };
        let muted: bool = match j.get("muted") {
            Some(v) => match v.as_bool() {
                Some(x) => x,
                None => {
                    return None;
                },
            },
            None => {
                return None;
            },
        };
        Some(ControllerState { supported_commands, volume, muted })
    }
}

/// A command from the server.
#[derive(Debug, Clone)]
pub struct ServerCommand {
    /// Command to the player role.
    pub player: Option<PlayerCommand>,
}

/// A `ServerCommand` over plain values.
pub ghost struct ServerCommandModel {
    pub player: Option<PlayerCommandModel>,
}

impl View for ServerCommand {
    type V = ServerCommandModel;

    open spec fn view(&self) -> ServerCommandModel {
        ServerCommandModel {
            player: match self.player {
                Some(x) => Some(x@),
                None => None,
            },
        }
    }
}

impl ServerCommandModel {
    /// The record on the wire: each member under its name, and an absent
    /// optional member left out.
    pub open spec fn encode(self) -> JsonModel {
        let m0 = Seq::<(Seq<char>, JsonModel)>::empty();
        let m1 = put_opt(
            m0,
            "player"@,
            match self.player {
                Some(x) => Some(x.encode()),
                None => None,
            },
        );
        JsonModel::Object(m1)
    }

    /// The value that a record on the wire stands for. The record must be
    /// an object. A required member must be there and of its type. An
    /// optional member may be absent or `null`, and must else be of its
    /// type. Members of other names are passed over.
    pub open spec fn decode(j: JsonModel) -> Option<ServerCommandModel> {
        match j {
            JsonModel::Object(members) => {
                let player = match present(members, "player"@) {
                    Some(v) => found(PlayerCommandModel::decode(v)),
                    None => Some(None),
                };
                let complete = player is Some;
                if complete {
                    Some(ServerCommandModel {
                        player: player->Some_0,
                    })
                } else {
                    None
                }
            },
            _ => None,
        }
    }

    /// Every value is read back from its record on the wire.
    pub proof fn lemma_round_trip(self)
        ensures
            Self::decode(self.encode()) == Some(self),
            self.encode() is Object,
    {
        reveal_strlit("player");
        let m0 = Seq::<(Seq<char>, JsonModel)>::empty();
        let v1 = match self.player {
            Some(x) => Some(x.encode()),
            None => None,
        };
        let m1 = put_opt(m0, "player"@, v1);
        assert(self.encode() == JsonModel::Object(m1));
        assert(lookup(m1, "player"@) == v1) by {
            lemma_lookup_put_opt(m0, "player"@, v1, "player"@);
        }
        if self.player is Some {
            self.player->Some_0.lemma_round_trip();
        }
    }

    /// The record holds whole numbers only.
    pub proof fn lemma_whole(self)
        ensures
            whole_numbers(self.encode()),
    {
        let m0 = Seq::<(Seq<char>, JsonModel)>::empty();
        assert(whole_members(m0));
        if self.player is Some {
            self.player->Some_0.lemma_whole();
        }
        let v1 = match self.player {
            Some(x) => Some(x.encode()),
            None => None,
        };
        lemma_whole_put_opt(m0, "player"@, v1);
        let m1 = put_opt(m0, "player"@, v1);
        assert(self.encode() == JsonModel::Object(m1));
    }
}

impl ServerCommand {
    /// This value as its record on the wire.
    pub fn to_json(&self) -> (j: Json)
        ensures
            j@ == self@.encode(),
    {
        let mut members: Vec<Member> = no_members();
        match &self.player {
            Some(x) => {
                put_member(&mut members, "player", x.to_json());
            },
            None => {},
        }
        Json::Object(members)
    }

    /// Reads a value from its record on the wire; `None` where the record
    /// stands for none.
    pub fn from_json(j: &Json) -> (r: Option<ServerCommand>)
        ensures
            match r {
                Some(value) => ServerCommandModel::decode(j@) == Some(value@),
                None => ServerCommandModel::decode(j@) is None,
            },
    {
        if !j.is_object() {
            return None;
        }
        let player: Option<PlayerCommand> = match j.get_present("player") {
            Some(v) => match PlayerCommand::from_json(v) {
                Some(x) => Some(x),
                None => {
                    return None;
                },
            },
            None => None,
        };
        Some(ServerCommand { player })
    }
}

/// A command to the player role.
#[derive(Debug, Clone)]
pub struct PlayerCommand {
    /// Name of the command.
    pub command: String,
    /// Volume, 0 to 100.
    pub volume: Option<u8>,
    /// Whether to mute the sound.
    pub mute: Option<bool>,
}

/// A `PlayerCommand` over plain values.
pub ghost struct PlayerCommandModel {
    pub command: Seq<char>,
    pub volume: Option<u8>,
    pub mute: Option<bool>,
}

impl View for PlayerCommand {
    type V = PlayerCommandModel;

    open spec fn view(&self) -> PlayerCommandModel {
        PlayerCommandModel {
            command: self.command@,
            volume: self.volume,
            mute: self.mute,
        }
    }
}

impl PlayerCommandModel {
    /// The record on the wire: each member under its name, and an absent
    /// optional member left out.
    pub open spec fn encode(self) -> JsonModel {
        let m0 = Seq::<(Seq<char>, JsonModel)>::empty();
        let m1 = put(m0, "command"@, JsonModel::Str(self.command));
        let m2 = put_opt(
            m1,
            "volume"@,
            match self.volume {
                Some(x) => Some(JsonModel::Int(x as int)),
                None => None,
            },
        );
        let m3 = put_opt(
            m2,
            "mute"@,
            match self.mute {
                Some(x) => Some(JsonModel::Bool(x)),
                None => None,
            },
        );
        JsonModel::Object(m3)
    }

    /// The value that a record on the wire stands for. The record must be
    /// an object. A required member must be there and of its type. An
    /// optional member may be absent or `null`, and must else be of its
    /// type. Members of other names are passed over.
    pub open spec fn decode(j: JsonModel) -> Option<PlayerCommandModel> {
        match j {
            JsonModel::Object(members) => {
                let command = match lookup(members, "command"@) {
                    Some(v) => v.as_str(),
                    None => None,
                };
                let volume = match present(members, "volume"@) {
                    Some(v) => found(v.as_u8()),
                    None => Some(None),
                };
                let mute = match present(members, "mute"@) {
                    Some(v) => found(v.as_bool()),
                    None => Some(None),
                };
                let complete = command is Some
                    && volume is Some
                    && mute is Some;
                if complete {
                    Some(PlayerCommandModel {
                        command: command->Some_0,
                        volume: volume->Some_0,
                        mute: mute->Some_0,
                    })
                } else {
                    None
                }
            },
            _ => None,
        }
    }

    /// Every value is read back from its record on the wire.
    pub proof fn lemma_round_trip(self)
        ensures
            Self::decode(self.encode()) == Some(self),
            self.encode() is Object,
    {
        reveal_strlit("command");
        reveal_strlit("volume");
        reveal_strlit("mute");
        assert("command"@.len() != "volume"@.len());
        assert("command"@.len() != "mute"@.len());
        assert("volume"@.len() != "mute"@.len());
        let m0 = Seq::<(Seq<char>, JsonModel)>::empty();
        let v1 = JsonModel::Str(self.command);
        let m1 = put(m0, "command"@, v1);
        let v2 = match self.volume {
            Some(x) => Some(JsonModel::Int(x as int)),
            None => None,
        };
        let m2 = put_opt(m1, "volume"@, v2);
        let v3 = match self.mute {
            Some(x) => Some(JsonModel::Bool(x)),
            None => None,
        };
        let m3 = put_opt(m2, "mute"@, v3);
        assert(self.encode() == JsonModel::Object(m3));
        assert(lookup(m3, "command"@) == Some(v1)) by {
            lemma_lookup_put_opt(m2, "mute"@, v3, "command"@);
            lemma_lookup_put_opt(m1, "volume"@, v2, "command"@);
            lemma_lookup_put(m0, "command"@, v1, "command"@);
        }
        assert(lookup(m3, "volume"@) == v2) by {
            lemma_lookup_put_opt(m2, "mute"@, v3, "volume"@);
            lemma_lookup_put_opt(m1, "volume"@, v2, "volume"@);
            lemma_lookup_put(m0, "command"@, v1, "volume"@);
        }
        assert(lookup(m3, "mute"@) == v3) by {
            lemma_lookup_put_opt(m2, "mute"@, v3, "mute"@);
            lemma_lookup_put_opt(m1, "volume"@, v2, "mute"@);
            lemma_lookup_put(m0, "command"@, v1, "mute"@);
        }
    }

    /// The record holds whole numbers only.
    pub proof fn lemma_whole(self)
        ensures
            whole_numbers(self.encode()),
    {
        let m0 = Seq::<(Seq<char>, JsonModel)>::empty();
        assert(whole_members(m0));
        let v1 = JsonModel::Str(self.command);
        lemma_whole_put(m0, "command"@, v1);
        let m1 = put(m0, "command"@, v1);
        let v2 = match self.volume {
            Some(x) => Some(JsonModel::Int(x as int)),
            None => None,
        };
        lemma_whole_put_opt(m1, "volume"@, v2);
        let m2 = put_opt(m1, "volume"@, v2);
        let v3 = match self.mute {
            Some(x) => Some(JsonModel::Bool(x)),
            None => None,
        };
        lemma_whole_put_opt(m2, "mute"@, v3);
        let m3 = put_opt(m2, "mute"@, v3);
        assert(self.encode() == JsonModel::Object(m3));
    }
}

impl PlayerCommand {
    /// This value as its record on the wire.
    pub fn to_json(&self) -> (j: Json)
        ensures
            j@ == self@.encode(),
    {
        let mut members: Vec<Member> = no_members();
        put_member(&mut members, "command", Json::Str(self.command.clone()));
        match &self.volume {
            Some(x) => {
                put_member(&mut members, "volume", Json::Int(*x as i64));
            },
            None => {},
        }
        match &self.mute {
            Some(x) => {
                put_member(&mut members, "mute", Json::Bool(*x));
            },
            None => {},
        }
        Json::Object(members)
    }

    /// Reads a value from its record on the wire; `None` where the record
    /// stands for none.
    pub fn from_json(j: &Json) -> (r: Option<PlayerCommand>)
        ensures
            match r {
                Some(value) => PlayerCommandModel::decode(j@) == Some(value@),
                None => PlayerCommandModel::decode(j@) is None,
            },
    {
        if !j.is_object() {
            return None;
        }
        let command: String = match j.get("command") {
            Some(v) => match v.as_string() {
                Some(x) => x,
                None => {
                    return None;
                },
            },
            None => {
                return None;
            },
        };
        let volume: Option<u8> = match j.get_present("volume") {
            Some(v) => match v.as_u8() {
                Some(x) => Some(x),
                None => {
                    return None;
                },
            },
            None => None,
        };
        let mute: Option<bool> = match j.get_present("mute") {
            Some(v) => match v.as_bool() {
                Some(x) => Some(x),
                None => {
                    return None;
                },
            },
            None => None,
        };
        Some(PlayerCommand { command, volume, mute })
    }
}

/// A command from the client.
#[derive(Debug, Clone)]
pub struct ClientCommand {
    /// Command of the controller role.
    pub controller: Option<ControllerCommand>,
}

/// A `ClientCommand` over plain values.
pub ghost struct ClientCommandModel {
    pub controller: Option<ControllerCommandModel>,
}

impl View for ClientCommand {
    type V = ClientCommandModel;

    open spec fn view(&self) -> ClientCommandModel {
        ClientCommandModel {
            controller: match self.controller {
                Some(x) => Some(x@),
                None => None,
            },
        }
    }
}

impl ClientCommandModel {
    /// The record on the wire: each member under its name, and an absent
    /// optional member left out.
    pub open spec fn encode(self) -> JsonModel {
        let m0 = Seq::<(Seq<char>, JsonModel)>::empty();
        let m1 = put_opt(
            m0,
            "controller"@,
            match self.controller {
                Some(x) => Some(x.encode()),
                None => None,
            },
        );
        JsonModel::Object(m1)
    }

    /// The value that a record on the wire stands for. The record must be
    /// an object. A required member must be there and of its type. An
    /// optional member may be absent or `null`, and must else be of its
    /// type. Members of other names are passed over.
    pub open spec fn decode(j: JsonModel) -> Option<ClientCommandModel> {
        match j {
            JsonModel::Object(members) => {
                let controller = match present(members, "controller"@) {
                    Some(v) => found(ControllerCommandModel::decode(v)),
                    None => Some(None),
                };
                let complete = controller is Some;
                if complete {
                    Some(ClientCommandModel {
                        controller: controller->Some_0,
                    })
                } else {
                    None
                }
            },
            _ => None,
        }
    }

    /// Every value is read back from its record on the wire.
    pub proof fn lemma_round_trip(self)
        ensures
            Self::decode(self.encode()) == Some(self),
            self.encode() is Object,
    {
        reveal_strlit("controller");
        let m0 = Seq::<(Seq<char>, JsonModel)>::empty();
        let v1 = match self.controller {
            Some(x) => Some(x.encode()),
            None => None,
        };
        let m1 = put_opt(m0, "controller"@, v1);
        assert(self.encode() == JsonModel::Object(m1));
        assert(lookup(m1, "controller"@) == v1) by {
            lemma_lookup_put_opt(m0, "controller"@, v1, "controller"@);
        }
        if self.controller is Some {
            self.controller->Some_0.lemma_round_trip();
        }
    }

    /// The record holds whole numbers only.
    pub proof fn lemma_whole(self)
        ensures
            whole_numbers(self.encode()),
    {
        let m0 = Seq::<(Seq<char>, JsonModel)>::empty();
        assert(whole_members(m0));
        if self.controller is Some {
            self.controller->Some_0.lemma_whole();
        }
        let v1 = match self.controller {
            Some(x) => Some(x.encode()),
            None => None,
        };
        lemma_whole_put_opt(m0, "controller"@, v1);
        let m1 = put_opt(m0, "controller"@, v1);
        assert(self.encode() == JsonModel::Object(m1));
    }
}

impl ClientCommand {
    /// This value as its record on the wire.
    pub fn to_json(&self) -> (j: Json)
        ensures
            j@ == self@.encode(),
    {
        let mut members: Vec<Member> = no_members();
        match &self.controller {
            Some(x) => {
                put_member(&mut members, "controller", x.to_json());
            },
            None => {},
        }
        Json::Object(members)
    }

    /// Reads a value from its record on the wire; `None` where the record
    /// stands for none.
    pub fn from_json(j: &Json) -> (r: Option<ClientCommand>)
        ensures
            match r {
                Some(value) => ClientCommandModel::decode(j@) == Some(value@),
                None => ClientCommandModel::decode(j@) is None,
            },
    {
        if !j.is_object() {
            return None;
        }
        let controller: Option<ControllerCommand> = match j.get_present("controller") {
            Some(v) => match ControllerCommand::from_json(v) {
                Some(x) => Some(x),
                None => {
                    return None;
                },
            },
            None => None,
        };
        Some(ClientCommand { controller })
    }
}

/// A command of the controller role.
#[derive(Debug, Clone)]
pub struct ControllerCommand {
    /// Name of the command.
    pub command: String,
    /// Volume, 0 to 100, for the volume command.
    pub volume: Option<u8>,
    /// Whether to mute, for the mute command.
    pub mute: Option<bool>,
}

/// A `ControllerCommand` over plain values.
pub ghost struct ControllerCommandModel {
    pub command: Seq<char>,
    pub volume: Option<u8>,
    pub mute: Option<bool>,
}

impl View for ControllerCommand {
    type V = ControllerCommandModel;

    open spec fn view(&self) -> ControllerCommandModel {
        ControllerCommandModel {
            command: self.command@,
            volume: self.volume,
            mute: self.mute,
        }
    }
}

impl ControllerCommandModel {
    /// The record on the wire: each member under its name, and an absent
    /// optional member left out.
    pub open spec fn encode(self) -> JsonModel {
        let m0 = Seq::<(Seq<char>, JsonModel)>::empty();
        let m1 = put(m0, "command"@, JsonModel::Str(self.command));
        let m2 = put_opt(
            m1,
            "volume"@,
            match self.volume {
                Some(x) => Some(JsonModel::Int(x as int)),
                None => None,
            },
        );
        let m3 = put_opt(
            m2,
            "mute"@,
            match self.mute {
                Some(x) => Some(JsonModel::Bool(x)),
                None => None,
            },
        );
        JsonModel::Object(m3)
    }

    /// The value that a record on the wire stands for. The record must be
    /// an object. A required member must be there and of its type. An
    /// optional member may be absent or `null`, and must else be of its
    /// type. Members of other names are passed over.
    pub open spec fn decode(j: JsonModel) -> Option<ControllerCommandModel> {
        match j {
            JsonModel::Object(members) => {
                let command = match lookup(members, "command"@) {
                    Some(v) => v.as_str(),
                    None => None,
                };
                let volume = match present(members, "volume"@) {
                    Some(v) => found(v.as_u8()),
                    None => Some(None),
                };
                let mute = match present(members, "mute"@) {
                    Some(v) => found(v.as_bool()),
                    None => Some(None),
                };
                let complete = command is Some
                    && volume is Some
                    && mute is Some;
                if complete {
                    Some(ControllerCommandModel {
                        command: command->Some_0,
                        volume: volume->Some_0,
                        mute: mute->Some_0,
                    })
                } else {
                    None
                }
            },
            _ => None,
        }
    }

    /// Every value is read back from its record on the wire.
    pub proof fn lemma_round_trip(self)
        ensures
            Self::decode(self.encode()) == Some(self),
            self.encode() is Object,
    {
        reveal_strlit("command");
        reveal_strlit("volume");
        reveal_strlit("mute");
        assert("command"@.len() != "volume"@.len());
        assert("command"@.len() != "mute"@.len());
        assert("volume"@.len() != "mute"@.len());
        let m0 = Seq::<(Seq<char>, JsonModel)>::empty();
        let v1 = JsonModel::Str(self.command);
        let m1 = put(m0, "command"@, v1);
        let v2 = match self.volume {
            Some(x) => Some(JsonModel::Int(x as int)),
            None => None,
        };
        let m2 = put_opt(m1, "volume"@, v2);
        let v3 = match self.mute {
            Some(x) => Some(JsonModel::Bool(x)),
            None => None,
        };
        let m3 = put_opt(m2, "mute"@, v3);
        assert(self.encode() == JsonModel::Object(m3));
        assert(lookup(m3, "command"@) == Some(v1)) by {
            lemma_lookup_put_opt(m2, "mute"@, v3, "command"@);
            lemma_lookup_put_opt(m1, "volume"@, v2, "command"@);
            lemma_lookup_put(m0, "command"@, v1, "command"@);
        }
        assert(lookup(m3, "volume"@) == v2) by {
            lemma_lookup_put_opt(m2, "mute"@, v3, "volume"@);
            lemma_lookup_put_opt(m1, "volume"@, v2, "volume"@);
            lemma_lookup_put(m0, "command"@, v1, "volume"@);
        }
        assert(lookup(m3, "mute"@) == v3) by {
            lemma_lookup_put_opt(m2, "mute"@, v3, "mute"@);
            lemma_lookup_put_opt(m1, "volume"@, v2, "mute"@);
            lemma_lookup_put(m0, "command"@, v1, "mute"@);
        }
    }

    /// The record holds whole numbers only.
    pub proof fn lemma_whole(self)
        ensures
            whole_numbers(self.encode()),
    {
        let m0 = Seq::<(Seq<char>, JsonModel)>::empty();
        assert(whole_members(m0));
        let v1 = JsonModel::Str(self.command);
        lemma_whole_put(m0, "command"@, v1);
        let m1 = put(m0, "command"@, v1);
        let v2 = match self.volume {
            Some(x) => Some(JsonModel::Int(x as int)),
            None => None,
        };
        lemma_whole_put_opt(m1, "volume"@, v2);
        let m2 = put_opt(m1, "volume"@, v2);
        let v3 = match self.mute {
            Some(x) => Some(JsonModel::Bool(x)),
            None => None,
        };
        lemma_whole_put_opt(m2, "mute"@, v3);
        let m3 = put_opt(m2, "mute"@, v3);
        assert(self.encode() == JsonModel::Object(m3));
    }
}

impl ControllerCommand {
    /// This value as its record on the wire.
    pub fn to_json(&self) -> (j: Json)
        ensures
            j@ == self@.encode(),
    {
        let mut members: Vec<Member> = no_members();
        put_member(&mut members, "command", Json::Str(self.command.clone()));
        match &self.volume {
            Some(x) => {
                put_member(&mut members, "volume", Json::Int(*x as i64));
            },
            None => {},
        }
        match &self.mute {
            Some(x) => {
                put_member(&mut members, "mute", Json::Bool(*x));
            },
            None => {},
        }
        Json::Object(members)
    }

    /// Reads a value from its record on the wire; `None` where the record
    /// stands for none.
    pub fn from_json(j: &Json) -> (r: Option<ControllerCommand>)
        ensures
            match r {
                Some(value) => ControllerCommandModel::decode(j@) == Some(value@),
                None => ControllerCommandModel::decode(j@) is None,
            },
    {
        if !j.is_object() {
            return None;
        }
        let command: String = match j.get("command") {
            Some(v) => match v.as_string() {
                Some(x) => x,
                None => {
                    return None;
                },
            },
            None => {
                return None;
            },
        };
        let volume: Option<u8> = match j.get_present("volume") {
            Some(v) => match v.as_u8() {
                Some(x) => Some(x),
                None => {
                    return None;
                },
            },
            None => None,
        };
        let mute: Option<bool> = match j.get_present("mute") {
            Some(v) => match v.as_bool() {
                Some(x) => Some(x),
                None => {
                    return None;
                },
            },
            None => None,
        };
        Some(ControllerCommand { command, volume, mute })
    }
}

/// The start of a stream.
#[derive(Debug, Clone)]
pub struct StreamStart {
    /// Format of the audio, where the player role is active.
    pub player: Option<StreamPlayerConfig>,
    /// Artwork channels, where the artwork role is active.
    pub artwork: Option<StreamArtworkConfig>,
    /// Visualizer settings, where the visualizer role is active.
    pub visualizer: Option<StreamVisualizerConfig>,
}

/// A `StreamStart` over plain values.
pub ghost struct StreamStartModel {
    pub player: Option<StreamPlayerConfigModel>,
    pub artwork: Option<StreamArtworkConfigModel>,
    pub visualizer: Option<StreamVisualizerConfig>,
}

impl View for StreamStart {
    type V = StreamStartModel;

    open spec fn view(&self) -> StreamStartModel {
        StreamStartModel {
            player: match self.player {
                Some(x) => Some(x@),
                None => None,
            },
            artwork: match self.artwork {
                Some(x) => Some(x@),
                None => None,
            },
            visualizer: self.visualizer,
        }
    }
}

impl StreamStartModel {
    /// The record on the wire: each member under its name, and an absent
    /// optional member left out.
    pub open spec fn encode(self) -> JsonModel {
        let m0 = Seq::<(Seq<char>, JsonModel)>::empty();
        let m1 = put_opt(
            m0,
            "player"@,
            match self.player {
                Some(x) => Some(x.encode()),
                None => None,
            },
        );
        let m2 = put_opt(
            m1,
            "artwork"@,
            match self.artwork {
                Some(x) => Some(x.encode()),
                None => None,
            },
        );
        let m3 = put_opt(
            m2,
            "visualizer"@,
            match self.visualizer {
                Some(x) => Some(x.encode()),
                None => None,
            },
        );
        JsonModel::Object(m3)
    }

    /// The value that a record on the wire stands for. The record must be
    /// an object. A required member must be there and of its type. An
    /// optional member may be absent or `null`, and must else be of its
    /// type. Members of other names are passed over.
    pub open spec fn decode(j: JsonModel) -> Option<StreamStartModel> {
        match j {
            JsonModel::Object(members) => {
                let player = match present(members, "player"@) {
                    Some(v) => found(StreamPlayerConfigModel::decode(v)),
                    None => Some(None),
                };
                let artwork = match present(members, "artwork"@) {
                    Some(v) => found(StreamArtworkConfigModel::decode(v)),
                    None => Some(None),
                };
                let visualizer = match present(members, "visualizer"@) {
                    Some(v) => found(StreamVisualizerConfig::decode(v)),
                    None => Some(None),
                };
                let complete = player is Some
                    && artwork is Some
                    && visualizer is Some;
                if complete {
                    Some(StreamStartModel {
                        player: player->Some_0,
                        artwork: artwork->Some_0,
                        visualizer: visualizer->Some_0,
                    })
                } else {
                    None
                }
            },
            _ => None,
        }
    }

    /// Every value is read back from its record on the wire.
    pub proof fn lemma_round_trip(self)
        ensures
            Self::decode(self.encode()) == Some(self),
            self.encode() is Object,
    {
        reveal_strlit("player");
        reveal_strlit("artwork");
        reveal_strlit("visualizer");
        assert("player"@.len() != "artwork"@.len());
        assert("player"@.len() != "visualizer"@.len());
        assert("artwork"@.len() != "visualizer"@.len());
        let m0 = Seq::<(Seq<char>, JsonModel)>::empty();
        let v1 = match self.player {
            Some(x) => Some(x.encode()),
            None => None,
        };
        let m1 = put_opt(m0, "player"@, v1);
        let v2 = match self.artwork {
            Some(x) => Some(x.encode()),
            None => None,
        };
        let m2 = put_opt(m1, "artwork"@, v2);
        let v3 = match self.visualizer {
            Some(x) => Some(x.encode()),
            None => None,
        };
        let m3 = put_opt(m2, "visualizer"@, v3);
        assert(self.encode() == JsonModel::Object(m3));
        assert(lookup(m3, "player"@) == v1) by {
            lemma_lookup_put_opt(m2, "visualizer"@, v3, "player"@);
            lemma_lookup_put_opt(m1, "artwork"@, v2, "player"@);
            lemma_lookup_put_opt(m0, "player"@, v1, "player"@);
        }
        assert(lookup(m3, "artwork"@) == v2) by {
            lemma_lookup_put_opt(m2, "visualizer"@, v3, "artwork"@);
            lemma_lookup_put_opt(m1, "artwork"@, v2, "artwork"@);
            lemma_lookup_put_opt(m0, "player"@, v1, "artwork"@);
        }
        assert(lookup(m3, "visualizer"@) == v3) by {
            lemma_lookup_put_opt(m2, "visualizer"@, v3, "visualizer"@);
            lemma_lookup_put_opt(m1, "artwork"@, v2, "visualizer"@);
            lemma_lookup_put_opt(m0, "player"@, v1, "visualizer"@);
        }
        if self.player is Some {
            self.player->Some_0.lemma_round_trip();
        }
        if self.artwork is Some {
            self.artwork->Some_0.lemma_round_trip();
        }
        if self.visualizer is Some {
            self.visualizer->Some_0.lemma_round_trip();
        }
    }

    /// The record holds whole numbers only.
    pub proof fn lemma_whole(self)
        ensures
            whole_numbers(self.encode()),
    {
        let m0 = Seq::<(Seq<char>, JsonModel)>::empty();
        assert(whole_members(m0));
        if self.player is Some {
            self.player->Some_0.lemma_whole();
        }
        let v1 = match self.player {
            Some(x) => Some(x.encode()),
            None => None,
        };
        lemma_whole_put_opt(m0, "player"@, v1);
        let m1 = put_opt(m0, "player"@, v1);
        if self.artwork is Some {
            self.artwork->Some_0.lemma_whole();
        }
        let v2 = match self.artwork {
            Some(x) => Some(x.encode()),
            None => None,
        };
        lemma_whole_put_opt(m1, "artwork"@, v2);
        let m2 = put_opt(m1, "artwork"@, v2);
        if self.visualizer is Some {
            self.visualizer->Some_0.lemma_whole();
        }
        let v3 = match self.visualizer {
            Some(x) => Some(x.encode()),
            None => None,
        };
        lemma_whole_put_opt(m2, "visualizer"@, v3);
        let m3 = put_opt(m2, "visualizer"@, v3);
        assert(self.encode() == JsonModel::Object(m3));
    }
}

impl StreamStart {
    /// This value as its record on the wire.
    pub fn to_json(&self) -> (j: Json)
        ensures
            j@ == self@.encode(),
    {
        let mut members: Vec<Member> = no_members();
        match &self.player {
            Some(x) => {
                put_member(&mut members, "player", x.to_json());
            },
            None => {},
        }
        match &self.artwork {
            Some(x) => {
                put_member(&mut members, "artwork", x.to_json());
            },
            None => {},
        }
        match &self.visualizer {
            Some(x) => {
                put_member(&mut members, "visualizer", x.to_json());
            },
            None => {},
        }
        Json::Object(members)
    }

    /// Reads a value from its record on the wire; `None` where the record
    /// stands for none.
    pub fn from_json(j: &Json) -> (r: Option<StreamStart>)
        ensures
            match r {
                Some(value) => StreamStartModel::decode(j@) == Some(value@),
                None => StreamStartModel::decode(j@) is None,
            },
    {
        if !j.is_object() {
            return None;
        }
        let player: Option<StreamPlayerConfig> = match j.get_present("player") {
            Some(v) => match StreamPlayerConfig::from_json(v) {
                Some(x) => Some(x),
                None => {
                    return None;
                },
            },
            None => None,
        };
        let artwork: Option<StreamArtworkConfig> = match j.get_present("artwork") {
            Some(v) => match StreamArtworkConfig::from_json(v) {
                Some(x) => Some(x),
                None => {
                    return None;
                },
            },
            None => None,
        };
        let visualizer: Option<StreamVisualizerConfig> = match j.get_present("visualizer") {
            Some(v) => match StreamVisualizerConfig::from_json(v) {
                Some(x) => Some(x),
                None => {
                    return None;
                },
            },
            None => None,
        };
        Some(StreamStart { player, artwork, visualizer })
    }
}

/// Format of the audio of a stream.
#[derive(Debug, Clone)]
pub struct StreamPlayerConfig {
    /// Name of the codec.
    pub codec: String,
    /// Sample rate in Hz.
    pub sample_rate: u32,
    /// Number of channels.
    pub channels: u8,
    /// Bits per sample.
    pub bit_depth: u8,
    /// Header of the codec, in base64.
    pub codec_header: Option<String>,
}

/// A `StreamPlayerConfig` over plain values.
pub ghost struct StreamPlayerConfigModel {
    pub codec: Seq<char>,
    pub sample_rate: u32,
    pub channels: u8,
    pub bit_depth: u8,
    pub codec_header: Option<Seq<char>>,
}

impl View for StreamPlayerConfig {
    type V = StreamPlayerConfigModel;

    open spec fn view(&self) -> StreamPlayerConfigModel {
        StreamPlayerConfigModel {
            codec: self.codec@,
            sample_rate: self.sample_rate,
            channels: self.channels,
            bit_depth: self.bit_depth,
            codec_header: match self.codec_header {
                Some(x) => Some(x@),
                None => None,
            },
        }
    }
}

impl StreamPlayerConfigModel {
    /// The record on the wire: each member under its name, and an absent
    /// optional member left out.
    pub open spec fn encode(self) -> JsonModel {
        let m0 = Seq::<(Seq<char>, JsonModel)>::empty();
        let m1 = put(m0, "codec"@, JsonModel::Str(self.codec));
        let m2 = put(m1, "sample_rate"@, JsonModel::Int(self.sample_rate as int));
        let m3 = put(m2, "channels"@, JsonModel::Int(self.channels as int));
        let m4 = put(m3, "bit_depth"@, JsonModel::Int(self.bit_depth as int));
        let m5 = put_opt(
            m4,
            "codec_header"@,
            match self.codec_header {
                Some(x) => Some(JsonModel::Str(x)),
                None => None,
            },
        );
        JsonModel::Object(m5)
    }

    /// The value that a record on the wire stands for. The record must be
    /// an object. A required member must be there and of its type. An
    /// optional member may be absent or `null`, and must else be of its
    /// type. Members of other names are passed over.
    pub open spec fn decode(j: JsonModel) -> Option<StreamPlayerConfigModel> {
        match j {
            JsonModel::Object(members) => {
                let codec = match lookup(members, "codec"@) {
                    Some(v) => v.as_str(),
                    None => None,
                };
                let sample_rate = match lookup(members, "sample_rate"@) {
                    Some(v) => v.as_u32(),
                    None => None,
                };
                let channels = match lookup(members, "channels"@) {
                    Some(v) => v.as_u8(),
                    None => None,
                };
                let bit_depth = match lookup(members, "bit_depth"@) {
                    Some(v) => v.as_u8(),
                    None => None,
                };
                let codec_header = match present(members, "codec_header"@) {
                    Some(v) => found(v.as_str()),
                    None => Some(None),
                };
                let complete = codec is Some
                    && sample_rate is Some
                    && channels is Some
                    && bit_depth is Some
                    && codec_header is Some;
                if complete {
                    Some(StreamPlayerConfigModel {
                        codec: codec->Some_0,
                        sample_rate: sample_rate->Some_0,
                        channels: channels->Some_0,
                        bit_depth: bit_depth->Some_0,
                        codec_header: codec_header->Some_0,
                    })
                } else {
                    None
                }
            },
            _ => None,
        }
    }

    /// Every value is read back from its record on the wire.
    pub proof fn lemma_round_trip(self)
        ensures
            Self::decode(self.encode()) == Some(self),
            self.encode() is Object,
    {
        reveal_strlit("codec");
        reveal_strlit("sample_rate");
        reveal_strlit("channels");
        reveal_strlit("bit_depth");
        reveal_strlit("codec_header");
        assert("codec"@.len() != "sample_rate"@.len());
        assert("codec"@.len() != "channels"@.len());
        assert("codec"@.len() != "bit_depth"@.len());
        assert("codec"@.len() != "codec_header"@.len());
        assert("sample_rate"@.len() != "channels"@.len());
        assert("sample_rate"@.len() != "bit_depth"@.len());
        assert("sample_rate"@.len() != "codec_header"@.len());
        assert("channels"@.len() != "bit_depth"@.len());
        assert("channels"@.len() != "codec_header"@.len());
        assert("bit_depth"@.len() != "codec_header"@.len());
        let m0 = Seq::<(Seq<char>, JsonModel)>::empty();
        let v1 = JsonModel::Str(self.codec);
        let m1 = put(m0, "codec"@, v1);
        let v2 = JsonModel::Int(self.sample_rate as int);
        let m2 = put(m1, "sample_rate"@, v2);
        let v3 = JsonModel::Int(self.channels as int);
        let m3 = put(m2, "channels"@, v3);
        let v4 = JsonModel::Int(self.bit_depth as int);
        let m4 = put(m3, "bit_depth"@, v4);
        let v5 = match self.codec_header {
            Some(x) => Some(JsonModel::Str(x)),
            None => None,
        };
        let m5 = put_opt(m4, "codec_header"@, v5);
        assert(self.encode() == JsonModel::Object(m5));
        assert(lookup(m5, "codec"@) == Some(v1)) by {
            lemma_lookup_put_opt(m4, "codec_header"@, v5, "codec"@);
            lemma_lookup_put(m3, "bit_depth"@, v4, "codec"@);
            lemma_lookup_put(m2, "channels"@, v3, "codec"@);
            lemma_lookup_put(m1, "sample_rate"@, v2, "codec"@);
            lemma_lookup_put(m0, "codec"@, v1, "codec"@);
        }
        assert(lookup(m5, "sample_rate"@) == Some(v2)) by {
            lemma_lookup_put_opt(m4, "codec_header"@, v5, "sample_rate"@);
            lemma_lookup_put(m3, "bit_depth"@, v4, "sample_rate"@);
            lemma_lookup_put(m2, "channels"@, v3, "sample_rate"@);
            lemma_lookup_put(m1, "sample_rate"@, v2, "sample_rate"@);
        }
        assert(lookup(m5, "channels"@) == Some(v3)) by {
            lemma_lookup_put_opt(m4, "codec_header"@, v5, "channels"@);
            lemma_lookup_put(m3, "bit_depth"@, v4, "channels"@);
            lemma_lookup_put(m2, "channels"@, v3, "channels"@);
        }
        assert(lookup(m5, "bit_depth"@) == Some(v4)) by {
            lemma_lookup_put_opt(m4, "codec_header"@, v5, "bit_depth"@);
            lemma_lookup_put(m3, "bit_depth"@, v4, "bit_depth"@);
        }
        assert(lookup(m5, "codec_header"@) == v5) by {
            lemma_lookup_put_opt(m4, "codec_header"@, v5, "codec_header"@);
            lemma_lookup_put(m3, "bit_depth"@, v4, "codec_header"@);
            lemma_lookup_put(m2, "channels"@, v3, "codec_header"@);
            lemma_lookup_put(m1, "sample_rate"@, v2, "codec_header"@);
            lemma_lookup_put(m0, "codec"@, v1, "codec_header"@);
        }
    }

    /// The record holds whole numbers only.
    pub proof fn lemma_whole(self)
        ensures
            whole_numbers(self.encode()),
    {
        let m0 = Seq::<(Seq<char>, JsonModel)>::empty();
        assert(whole_members(m0));
        let v1 = JsonModel::Str(self.codec);
        lemma_whole_put(m0, "codec"@, v1);
        let m1 = put(m0, "codec"@, v1);
        let v2 = JsonModel::Int(self.sample_rate as int);
        lemma_whole_put(m1, "sample_rate"@, v2);
        let m2 = put(m1, "sample_rate"@, v2);
        let v3 = JsonModel::Int(self.channels as int);
        lemma_whole_put(m2, "channels"@, v3);
        let m3 = put(m2, "channels"@, v3);
        let v4 = JsonModel::Int(self.bit_depth as int);
        lemma_whole_put(m3, "bit_depth"@, v4);
        let m4 = put(m3, "bit_depth"@, v4);
        let v5 = match self.codec_header {
            Some(x) => Some(JsonModel::Str(x)),
            None => None,
        };
        lemma_whole_put_opt(m4, "codec_header"@, v5);
        let m5 = put_opt(m4, "codec_header"@, v5);
        assert(self.encode() == JsonModel::Object(m5));
    }
}

impl StreamPlayerConfig {
    /// This value as its record on the wire.
    pub fn to_json(&self) -> (j: Json)
        ensures
            j@ == self@.encode(),
    {
        let mut members: Vec<Member> = no_members();
        put_member(&mut members, "codec", Json::Str(self.codec.clone()));
        put_member(&mut members, "sample_rate", Json::Int(self.sample_rate as i64));
        put_member(&mut members, "channels", Json::Int(self.channels as i64));
        put_member(&mut members, "bit_depth", Json::Int(self.bit_depth as i64));
        match &self.codec_header {
            Some(x) => {
                put_member(&mut members, "codec_header", Json::Str(x.clone()));
            },
            None => {},
        }
        Json::Object(members)
    }

    /// Reads a value from its record on the wire; `None` where the record
    /// stands for none.
    pub fn from_json(j: &Json) -> (r: Option<StreamPlayerConfig>)
        ensures
            match r {
                Some(value) => StreamPlayerConfigModel::decode(j@) == Some(value@),
                None => StreamPlayerConfigModel::decode(j@) is None,
            },
    {
        if !j.is_object() {
            return None;
        }
        let codec: String = match j.get("codec") {
            Some(v) => match v.as_string() {
                Some(x) => x,
                None => {
                    return None;
                },
            },
            None => {
                return None;
            },
        };
        let sample_rate: u32 = match j.get("sample_rate") {
            Some(v) => match v.as_u32() {
                Some(x) => x,
                None => {
                    return None;
                },
            },
            None => {
                return None;
            },
        };
        let channels: u8 = match j.get("channels") {
            Some(v) => match v.as_u8() {
                Some(x) => x,
                None => {
                    return None;
                },
            },
            None => {
                return None;
            },
        };
        let bit_depth: u8 = match j.get("bit_depth") {
            Some(v) => match v.as_u8() {
                Some(x) => x,
                None => {
                    return None;
                },
            },
            None => {
                return None;
            },
        };
        let codec_header: Option<String> = match j.get_present("codec_header") {
            Some(v) => match v.as_string() {
                Some(x) => Some(x),
                None => {
                    return None;
                },
            },
            None => None,
        };
        Some(StreamPlayerConfig {
            codec,
            sample_rate,
            channels,
            bit_depth,
            codec_header,
        })
    }
}

/// Artwork channels of a stream.
#[derive(Debug, Clone)]
pub struct StreamArtworkConfig {
    /// Channels in use.
    pub channels: Vec<u8>,
}

/// A `StreamArtworkConfig` over plain values.
pub ghost struct StreamArtworkConfigModel {
    pub channels: Seq<u8>,
}

impl View for StreamArtworkConfig {
    type V = StreamArtworkConfigModel;

    open spec fn view(&self) -> StreamArtworkConfigModel {
        StreamArtworkConfigModel {
            channels: self.channels@,
        }
    }
}

impl StreamArtworkConfigModel {
    /// The record on the wire: each member under its name, and an absent
    /// optional member left out.
    pub open spec fn encode(self) -> JsonModel {
        let m0 = Seq::<(Seq<char>, JsonModel)>::empty();
        let m1 = put(m0, "channels"@, encode_bytes(self.channels));
        JsonModel::Object(m1)
    }

    /// The value that a record on the wire stands for. The record must be
    /// an object. A required member must be there and of its type. An
    /// optional member may be absent or `null`, and must else be of its
    /// type. Members of other names are passed over.
    pub open spec fn decode(j: JsonModel) -> Option<StreamArtworkConfigModel> {
        match j {
            JsonModel::Object(members) => {
                let channels = match lookup(members, "channels"@) {
                    Some(v) => decode_bytes(v),
                    None => None,
                };
                let complete = channels is Some;
                if complete {
                    Some(StreamArtworkConfigModel {
                        channels: channels->Some_0,
                    })
                } else {
                    None
                }
            },
            _ => None,
        }
    }

    /// Every value is read back from its record on the wire.
    pub proof fn lemma_round_trip(self)
        ensures
            Self::decode(self.encode()) == Some(self),
            self.encode() is Object,
    {
        reveal_strlit("channels");
        let m0 = Seq::<(Seq<char>, JsonModel)>::empty();
        let v1 = encode_bytes(self.channels);
        let m1 = put(m0, "channels"@, v1);
        assert(self.encode() == JsonModel::Object(m1));
        assert(lookup(m1, "channels"@) == Some(v1)) by {
            lemma_lookup_put(m0, "channels"@, v1, "channels"@);
        }
        lemma_bytes_round_trip(self.channels);
    }

    /// The record holds whole numbers only.
    pub proof fn lemma_whole(self)
        ensures
            whole_numbers(self.encode()),
    {
        let m0 = Seq::<(Seq<char>, JsonModel)>::empty();
        assert(whole_members(m0));
        lemma_whole_lists(Seq::<Seq<char>>::empty(), self.channels);
        let v1 = encode_bytes(self.channels);
        lemma_whole_put(m0, "channels"@, v1);
        let m1 = put(m0, "channels"@, v1);
        assert(self.encode() == JsonModel::Object(m1));
    }
}

impl StreamArtworkConfig {
    /// This value as its record on the wire.
    pub fn to_json(&self) -> (j: Json)
        ensures
            j@ == self@.encode(),
    {
        let mut members: Vec<Member> = no_members();
        put_member(&mut members, "channels", bytes_to_json(&self.channels));
        Json::Object(members)
    }

    /// Reads a value from its record on the wire; `None` where the record
    /// stands for none.
    pub fn from_json(j: &Json) -> (r: Option<StreamArtworkConfig>)
        ensures
            match r {
                Some(value) => StreamArtworkConfigModel::decode(j@) == Some(value@),
                None => StreamArtworkConfigModel::decode(j@) is None,
            },
    {
        if !j.is_object() {
            return None;
        }
        let channels: Vec<u8> = match j.get("channels") {
            Some(v) => match bytes_from_json(v) {
                Some(x) => x,
                None => {
                    return None;
                },
            },
            None => {
                return None;
            },
        };
        Some(StreamArtworkConfig { channels })
    }
}

/// Visualizer settings of a stream; none are defined.
#[derive(Debug, Clone, Copy, PartialEq, Eq, Structural)]
pub struct StreamVisualizerConfig {}

impl StreamVisualizerConfig {
    /// The record on the wire: each member under its name, and an absent
    /// optional member left out.
    pub open spec fn encode(self) -> JsonModel {
        let m0 = Seq::<(Seq<char>, JsonModel)>::empty();
        JsonModel::Object(m0)
    }

    /// The value that a record on the wire stands for. The record must be
    /// an object. A required member must be there and of its type. An
    /// optional member may be absent or `null`, and must else be of its
    /// type. Members of other names are passed over.
    pub open spec fn decode(j: JsonModel) -> Option<StreamVisualizerConfig> {
        match j {
            JsonModel::Object(_) => Some(StreamVisualizerConfig {  }),
            _ => None,
        }
    }

    /// Every value is read back from its record on the wire.
    pub proof fn lemma_round_trip(self)
        ensures
            Self::decode(self.encode()) == Some(self),
            self.encode() is Object,
    {
    }

    /// The record holds whole numbers only.
    pub proof fn lemma_whole(self)
        ensures
            whole_numbers(self.encode()),
    {
        let m0 = Seq::<(Seq<char>, JsonModel)>::empty();
        assert(whole_members(m0));
        assert(self.encode() == JsonModel::Object(m0));
    }
}

impl StreamVisualizerConfig {
    /// This value as its record on the wire.
    pub fn to_json(&self) -> (j: Json)
        ensures
            j@ == self.encode(),
    {
        let mut members: Vec<Member> = no_members();
        Json::Object(members)
    }

    /// Reads a value from its record on the wire; `None` where the record
    /// stands for none.
    pub fn from_json(j: &Json) -> (r: Option<StreamVisualizerConfig>)
        ensures
            r == StreamVisualizerConfig::decode(j@),
    {
        if !j.is_object() {
            return None;
        }
        Some(StreamVisualizerConfig {  })
    }
}

/// The end of a stream.
#[derive(Debug, Clone)]
pub struct StreamEnd {
    /// Roles whose stream has ended; all where absent.
    pub roles: Option<Vec<String>>,
}

/// A `StreamEnd` over plain values.
pub ghost struct StreamEndModel {
    pub roles: Option<Seq<Seq<char>>>,
}

impl View for StreamEnd {
    type V = StreamEndModel;

    open spec fn view(&self) -> StreamEndModel {
        StreamEndModel {
            roles: match self.roles {
                Some(x) => Some(texts(x@)),
                None => None,
            },
        }
    }
}

impl StreamEndModel {
    /// The record on the wire: each member under its name, and an absent
    /// optional member left out.
    pub open spec fn encode(self) -> JsonModel {
        let m0 = Seq::<(Seq<char>, JsonModel)>::empty();
        let m1 = put_opt(
            m0,
            "roles"@,
            match self.roles {
                Some(x) => Some(encode_texts(x)),
                None => None,
            },
        );
        JsonModel::Object(m1)
    }

    /// The value that a record on the wire stands for. The record must be
    /// an object. A required member must be there and of its type. An
    /// optional member may be absent or `null`, and must else be of its
    /// type. Members of other names are passed over.
    pub open spec fn decode(j: JsonModel) -> Option<StreamEndModel> {
        match j {
            JsonModel::Object(members) => {
                let roles = match present(members, "roles"@) {
                    Some(v) => found(decode_texts(v)),
                    None => Some(None),
                };
                let complete = roles is Some;
                if complete {
                    Some(StreamEndModel {
                        roles: roles->Some_0,
                    })
                } else {
                    None
                }
            },
            _ => None,
        }
    }

    /// Every value is read back from its record on the wire.
    pub proof fn lemma_round_trip(self)
        ensures
            Self::decode(self.encode()) == Some(self),
            self.encode() is Object,
    {
        reveal_strlit("roles");
        let m0 = Seq::<(Seq<char>, JsonModel)>::empty();
        let v1 = match self.roles {
            Some(x) => Some(encode_texts(x)),
            None => None,
        };
        let m1 = put_opt(m0, "roles"@, v1);
        assert(self.encode() == JsonModel::Object(m1));
        assert(lookup(m1, "roles"@) == v1) by {
            lemma_lookup_put_opt(m0, "roles"@, v1, "roles"@);
        }
        if self.roles is Some {
            lemma_texts_round_trip(self.roles->Some_0);
        }
    }

    /// The record holds whole numbers only.
    pub proof fn lemma_whole(self)
        ensures
            whole_numbers(self.encode()),
    {
        let m0 = Seq::<(Seq<char>, JsonModel)>::empty();
        assert(whole_members(m0));
        if self.roles is Some {
            lemma_whole_lists(self.roles->Some_0, Seq::<u8>::empty());
        }
        let v1 = match self.roles {
            Some(x) => Some(encode_texts(x)),
            None => None,
        };
        lemma_whole_put_opt(m0, "roles"@, v1);
        let m1 = put_opt(m0, "roles"@, v1);
        assert(self.encode() == JsonModel::Object(m1));
    }
}

impl StreamEnd {
    /// This value as its record on the wire.
    pub fn to_json(&self) -> (j: Json)
        ensures
            j@ == self@.encode(),
    {
        let mut members: Vec<Member> = no_members();
        match &self.roles {
            Some(x) => {
                put_member(&mut members, "roles", texts_to_json(x));
            },
            None => {},
        }
        Json::Object(members)
    }

    /// Reads a value from its record on the wire; `None` where the record
    /// stands for none.
    pub fn from_json(j: &Json) -> (r: Option<StreamEnd>)
        ensures
            match r {
                Some(value) => StreamEndModel::decode(j@) == Some(value@),
                None => StreamEndModel::decode(j@) is None,
            },
    {
        if !j.is_object() {
            return None;
        }
        let roles: Option<Vec<String>> = match j.get_present("roles") {
            Some(v) => match texts_from_json(v) {
                Some(x) => Some(x),
                None => {
                    return None;
                },
            },
            None => None,
        };
        Some(StreamEnd { roles })
    }
}

/// The order to discard what is buffered.
#[derive(Debug, Clone)]
pub struct StreamClear {
    /// Roles whose buffers are discarded; all where absent.
    pub roles: Option<Vec<String>>,
}

/// A `StreamClear` over plain values.
pub ghost struct StreamClearModel {
    pub roles: Option<Seq<Seq<char>>>,
}

impl View for StreamClear {
    type V = StreamClearModel;

    open spec fn view(&self) -> StreamClearModel {
        StreamClearModel {
            roles: match self.roles {
                Some(x) => Some(texts(x@)),
                None => None,
            },
        }
    }
}

impl StreamClearModel {
    /// The record on the wire: each member under its name, and an absent
    /// optional member left out.
    pub open spec fn encode(self) -> JsonModel {
        let m0 = Seq::<(Seq<char>, JsonModel)>::empty();
        let m1 = put_opt(
            m0,
            "roles"@,
            match self.roles {
                Some(x) => Some(encode_texts(x)),
                None => None,
            },
        );
        JsonModel::Object(m1)
    }

    /// The value that a record on the wire stands for. The record must be
    /// an object. A required member must be there and of its type. An
    /// optional member may be absent or `null`, and must else be of its
    /// type. Members of other names are passed over.
    pub open spec fn decode(j: JsonModel) -> Option<StreamClearModel> {
        match j {
            JsonModel::Object(members) => {
                let roles = match present(members, "roles"@) {
                    Some(v) => found(decode_texts(v)),
                    None => Some(None),
                };
                let complete = roles is Some;
                if complete {
                    Some(StreamClearModel {
                        roles: roles->Some_0,
                    })
                } else {
                    None
                }
            },
            _ => None,
        }
    }

    /// Every value is read back from its record on the wire.
    pub proof fn lemma_round_trip(self)
        ensures
            Self::decode(self.encode()) == Some(self),
            self.encode() is Object,
    {
        reveal_strlit("roles");
        let m0 = Seq::<(Seq<char>, JsonModel)>::empty();
        let v1 = match self.roles {
            Some(x) => Some(encode_texts(x)),
            None => None,
        };
        let m1 = put_opt(m0, "roles"@, v1);
        assert(self.encode() == JsonModel::Object(m1));
        assert(lookup(m1, "roles"@) == v1) by {
            lemma_lookup_put_opt(m0, "roles"@, v1, "roles"@);
        }
        if self.roles is Some {
            lemma_texts_round_trip(self.roles->Some_0);
        }
    }

    /// The record holds whole numbers only.
    pub proof fn lemma_whole(self)
        ensures
            whole_numbers(self.encode()),
    {
        let m0 = Seq::<(Seq<char>, JsonModel)>::empty();
        assert(whole_members(m0));
        if self.roles is Some {
            lemma_whole_lists(self.roles->Some_0, Seq::<u8>::empty());
        }
        let v1 = match self.roles {
            Some(x) => Some(encode_texts(x)),
            None => None,
        };
        lemma_whole_put_opt(m0, "roles"@, v1);
        let m1 = put_opt(m0, "roles"@, v1);
        assert(self.encode() == JsonModel::Object(m1));
    }
}

impl StreamClear {
    /// This value as its record on the wire.
    pub fn to_json(&self) -> (j: Json)
        ensures
            j@ == self@.encode(),
    {
        let mut members: Vec<Member> = no_members();
        match &self.roles {
            Some(x) => {
                put_member(&mut members, "roles", texts_to_json(x));
            },
            None => {},
        }
        Json::Object(members)
    }

    /// Reads a value from its record on the wire; `None` where the record
    /// stands for none.
    pub fn from_json(j: &Json) -> (r: Option<StreamClear>)
        ensures
            match r {
                Some(value) => StreamClearModel::decode(j@) == Some(value@),
                None => StreamClearModel::decode(j@) is None,
            },
    {
        if !j.is_object() {
            return None;
        }
        let roles: Option<Vec<String>> = match j.get_present("roles") {
            Some(v) => match texts_from_json(v) {
                Some(x) => Some(x),
                None => {
                    return None;
                },
            },
            None => None,
        };
        Some(StreamClear { roles })
    }
}

/// A client's wish for another format.
#[derive(Debug, Clone)]
pub struct StreamRequestFormat {
    /// Wish for the audio.
    pub player: Option<PlayerFormatRequest>,
    /// Wish for the artwork.
    pub artwork: Option<ArtworkFormatRequest>,
}

/// A `StreamRequestFormat` over plain values.
pub ghost struct StreamRequestFormatModel {
    pub player: Option<PlayerFormatRequestModel>,
    pub artwork: Option<ArtworkFormatRequestModel>,
}

impl View for StreamRequestFormat {
    type V = StreamRequestFormatModel;

    open spec fn view(&self) -> StreamRequestFormatModel {
        StreamRequestFormatModel {
            player: match self.player {
                Some(x) => Some(x@),
                None => None,
            },
            artwork: match self.artwork {
                Some(x) => Some(x@),
                None => None,
            },
        }
    }
}

impl StreamRequestFormatModel {
    /// The record on the wire: each member under its name, and an absent
    /// optional member left out.
    pub open spec fn encode(self) -> JsonModel {
        let m0 = Seq::<(Seq<char>, JsonModel)>::empty();
        let m1 = put_opt(
            m0,
            "player"@,
            match self.player {
                Some(x) => Some(x.encode()),
                None => None,
            },
        );
        let m2 = put_opt(
            m1,
            "artwork"@,
            match self.artwork {
                Some(x) => Some(x.encode()),
                None => None,
            },
        );
        JsonModel::Object(m2)
    }

    /// The value that a record on the wire stands for. The record must be
    /// an object. A required member must be there and of its type. An
    /// optional member may be absent or `null`, and must else be of its
    /// type. Members of other names are passed over.
    pub open spec fn decode(j: JsonModel) -> Option<StreamRequestFormatModel> {
        match j {
            JsonModel::Object(members) => {
                let player = match present(members, "player"@) {
                    Some(v) => found(PlayerFormatRequestModel::decode(v)),
                    None => Some(None),
                };
                let artwork = match present(members, "artwork"@) {
                    Some(v) => found(ArtworkFormatRequestModel::decode(v)),
                    None => Some(None),
                };
                let complete = player is Some
                    && artwork is Some;
                if complete {
                    Some(StreamRequestFormatModel {
                        player: player->Some_0,
                        artwork: artwork->Some_0,
                    })
                } else {
                    None
                }
            },
            _ => None,
        }
    }

    /// Every value is read back from its record on the wire.
    pub proof fn lemma_round_trip(self)
        ensures
            Self::decode(self.encode()) == Some(self),
            self.encode() is Object,
    {
        reveal_strlit("player");
        reveal_strlit("artwork");
        assert("player"@.len() != "artwork"@.len());
        let m0 = Seq::<(Seq<char>, JsonModel)>::empty();
        let v1 = match self.player {
            Some(x) => Some(x.encode()),
            None => None,
        };
        let m1 = put_opt(m0, "player"@, v1);
        let v2 = match self.artwork {
            Some(x) => Some(x.encode()),
            None => None,
        };
        let m2 = put_opt(m1, "artwork"@, v2);
        assert(self.encode() == JsonModel::Object(m2));
        assert(lookup(m2, "player"@) == v1) by {
            lemma_lookup_put_opt(m1, "artwork"@, v2, "player"@);
            lemma_lookup_put_opt(m0, "player"@, v1, "player"@);
        }
        assert(lookup(m2, "artwork"@) == v2) by {
            lemma_lookup_put_opt(m1, "artwork"@, v2, "artwork"@);
            lemma_lookup_put_opt(m0, "player"@, v1, "artwork"@);
        }
        if self.player is Some {
            self.player->Some_0.lemma_round_trip();
        }
        if self.artwork is Some {
            self.artwork->Some_0.lemma_round_trip();
        }
    }

    /// The record holds whole numbers only.
    pub proof fn lemma_whole(self)
        ensures
            whole_numbers(self.encode()),
    {
        let m0 = Seq::<(Seq<char>, JsonModel)>::empty();
        assert(whole_members(m0));
        if self.player is Some {
            self.player->Some_0.lemma_whole();
        }
        let v1 = match self.player {
            Some(x) => Some(x.encode()),
            None => None,
        };
        lemma_whole_put_opt(m0, "player"@, v1);
        let m1 = put_opt(m0, "player"@, v1);
        if self.artwork is Some {
            self.artwork->Some_0.lemma_whole();
        }
        let v2 = match self.artwork {
            Some(x) => Some(x.encode()),
            None => None,
        };
        lemma_whole_put_opt(m1, "artwork"@, v2);
        let m2 = put_opt(m1, "artwork"@, v2);
        assert(self.encode() == JsonModel::Object(m2));
    }
}

impl StreamRequestFormat {
    /// This value as its record on the wire.
    pub fn to_json(&self) -> (j: Json)
        ensures
            j@ == self@.encode(),
    {
        let mut members: Vec<Member> = no_members();
        match &self.player {
            Some(x) => {
                put_member(&mut members, "player", x.to_json());
            },
            None => {},
        }
        match &self.artwork {
            Some(x) => {
                put_member(&mut members, "artwork", x.to_json());
            },
            None => {},
        }
        Json::Object(members)
    }

    /// Reads a value from its record on the wire; `None` where the record
    /// stands for none.
    pub fn from_json(j: &Json) -> (r: Option<StreamRequestFormat>)
        ensures
            match r {
                Some(value) => StreamRequestFormatModel::decode(j@) == Some(value@),
                None => StreamRequestFormatModel::decode(j@) is None,
            },
    {
        if !j.is_object() {
            return None;
        }
        let player: Option<PlayerFormatRequest> = match j.get_present("player") {
            Some(v) => match PlayerFormatRequest::from_json(v) {
                Some(x) => Some(x),
                None => {
                    return None;
                },
            },
            None => None,
        };
        let artwork: Option<ArtworkFormatRequest> = match j.get_present("artwork") {
            Some(v) => match ArtworkFormatRequest::from_json(v) {
                Some(x) => Some(x),
                None => {
                    return None;
                },
            },
            None => None,
        };
        Some(StreamRequestFormat { player, artwork })
    }
}

/// A wish for an audio format.
#[derive(Debug, Clone)]
pub struct PlayerFormatRequest {
    /// Name of the codec.
    pub codec: Option<String>,
    /// Number of channels.
    pub channels: Option<u8>,
    /// Sample rate in Hz.
    pub sample_rate: Option<u32>,
    /// Bits per sample.
    pub bit_depth: Option<u8>,
}

/// A `PlayerFormatRequest` over plain values.
pub ghost struct PlayerFormatRequestModel {
    pub codec: Option<Seq<char>>,
    pub channels: Option<u8>,
    pub sample_rate: Option<u32>,
    pub bit_depth: Option<u8>,
}

impl View for PlayerFormatRequest {
    type V = PlayerFormatRequestModel;

    open spec fn view(&self) -> PlayerFormatRequestModel {
        PlayerFormatRequestModel {
            codec: match self.codec {
                Some(x) => Some(x@),
                None => None,
            },
            channels: self.channels,
            sample_rate: self.sample_rate,
            bit_depth: self.bit_depth,
        }
    }
}

impl PlayerFormatRequestModel {
    /// The record on the wire: each member under its name, and an absent
    /// optional member left out.
    pub open spec fn encode(self) -> JsonModel {
        let m0 = Seq::<(Seq<char>, JsonModel)>::empty();
        let m1 = put_opt(
            m0,
            "codec"@,
            match self.codec {
                Some(x) => Some(JsonModel::Str(x)),
                None => None,
            },
        );
        let m2 = put_opt(
            m1,
            "channels"@,
            match self.channels {
                Some(x) => Some(JsonModel::Int(x as int)),
                None => None,
            },
        );
        let m3 = put_opt(
            m2,
            "sample_rate"@,
            match self.sample_rate {
                Some(x) => Some(JsonModel::Int(x as int)),
                None => None,
            },
        );
        let m4 = put_opt(
            m3,
            "bit_depth"@,
            match self.bit_depth {
                Some(x) => Some(JsonModel::Int(x as int)),
                None => None,
            },
        );
        JsonModel::Object(m4)
    }

    /// The value that a record on the wire stands for. The record must be
    /// an object. A required member must be there and of its type. An
    /// optional member may be absent or `null`, and must else be of its
    /// type. Members of other names are passed over.
    pub open spec fn decode(j: JsonModel) -> Option<PlayerFormatRequestModel> {
        match j {
            JsonModel::Object(members) => {
                let codec = match present(members, "codec"@) {
                    Some(v) => found(v.as_str()),
                    None => Some(None),
                };
                let channels = match present(members, "channels"@) {
                    Some(v) => found(v.as_u8()),
                    None => Some(None),
                };
                let sample_rate = match present(members, "sample_rate"@) {
                    Some(v) => found(v.as_u32()),
                    None => Some(None),
                };
                let bit_depth = match present(members, "bit_depth"@) {
                    Some(v) => found(v.as_u8()),
                    None => Some(None),
                };
                let complete = codec is Some
                    && channels is Some
                    && sample_rate is Some
                    && bit_depth is Some;
                if complete {
                    Some(PlayerFormatRequestModel {
                        codec: codec->Some_0,
                        channels: channels->Some_0,
                        sample_rate: sample_rate->Some_0,
                        bit_depth: bit_depth->Some_0,
                    })
                } else {
                    None
                }
            },
            _ => None,
        }
    }

    /// Every value is read back from its record on the wire.
    pub proof fn lemma_round_trip(self)
        ensures
            Self::decode(self.encode()) == Some(self),
            self.encode() is Object,
    {
        reveal_strlit("codec");
        reveal_strlit("channels");
        reveal_strlit("sample_rate");
        reveal_strlit("bit_depth");
        assert("codec"@.len() != "channels"@.len());
        assert("codec"@.len() != "sample_rate"@.len());
        assert("codec"@.len() != "bit_depth"@.len());
        assert("channels"@.len() != "sample_rate"@.len());
        assert("channels"@.len() != "bit_depth"@.len());
        assert("sample_rate"@.len() != "bit_depth"@.len());
        let m0 = Seq::<(Seq<char>, JsonModel)>::empty();
        let v1 = match self.codec {
            Some(x) => Some(JsonModel::Str(x)),
            None => None,
        };
        let m1 = put_opt(m0, "codec"@, v1);
        let v2 = match self.channels {
            Some(x) => Some(JsonModel::Int(x as int)),
            None => None,
        };
        let m2 = put_opt(m1, "channels"@, v2);
        let v3 = match self.sample_rate {
            Some(x) => Some(JsonModel::Int(x as int)),
            None => None,
        };
        let m3 = put_opt(m2, "sample_rate"@, v3);
        let v4 = match self.bit_depth {
            Some(x) => Some(JsonModel::Int(x as int)),
            None => None,
        };
        let m4 = put_opt(m3, "bit_depth"@, v4);
        assert(self.encode() == JsonModel::Object(m4));
        assert(lookup(m4, "codec"@) == v1) by {
            lemma_lookup_put_opt(m3, "bit_depth"@, v4, "codec"@);
            lemma_lookup_put_opt(m2, "sample_rate"@, v3, "codec"@);
            lemma_lookup_put_opt(m1, "channels"@, v2, "codec"@);
            lemma_lookup_put_opt(m0, "codec"@, v1, "codec"@);
        }
        assert(lookup(m4, "channels"@) == v2) by {
            lemma_lookup_put_opt(m3, "bit_depth"@, v4, "channels"@);
            lemma_lookup_put_opt(m2, "sample_rate"@, v3, "channels"@);
            lemma_lookup_put_opt(m1, "channels"@, v2, "channels"@);
            lemma_lookup_put_opt(m0, "codec"@, v1, "channels"@);
        }
        assert(lookup(m4, "sample_rate"@) == v3) by {
            lemma_lookup_put_opt(m3, "bit_depth"@, v4, "sample_rate"@);
            lemma_lookup_put_opt(m2, "sample_rate"@, v3, "sample_rate"@);
            lemma_lookup_put_opt(m1, "channels"@, v2, "sample_rate"@);
            lemma_lookup_put_opt(m0, "codec"@, v1, "sample_rate"@);
        }
        assert(lookup(m4, "bit_depth"@) == v4) by {
            lemma_lookup_put_opt(m3, "bit_depth"@, v4, "bit_depth"@);
            lemma_lookup_put_opt(m2, "sample_rate"@, v3, "bit_depth"@);
            lemma_lookup_put_opt(m1, "channels"@, v2, "bit_depth"@);
            lemma_lookup_put_opt(m0, "codec"@, v1, "bit_depth"@);
        }
    }

    /// The record holds whole numbers only.
    pub proof fn lemma_whole(self)
        ensures
            whole_numbers(self.encode()),
    {
        let m0 = Seq::<(Seq<char>, JsonModel)>::empty();
        assert(whole_members(m0));
        let v1 = match self.codec {
            Some(x) => Some(JsonModel::Str(x)),
            None => None,
        };
        lemma_whole_put_opt(m0, "codec"@, v1);
        let m1 = put_opt(m0, "codec"@, v1);
        let v2 = match self.channels {
            Some(x) => Some(JsonModel::Int(x as int)),
            None => None,
        };
        lemma_whole_put_opt(m1, "channels"@, v2);
        let m2 = put_opt(m1, "channels"@, v2);
        let v3 = match self.sample_rate {
            Some(x) => Some(JsonModel::Int(x as int)),
            None => None,
        };
        lemma_whole_put_opt(m2, "sample_rate"@, v3);
        let m3 = put_opt(m2, "sample_rate"@, v3);
        let v4 = match self.bit_depth {
            Some(x) => Some(JsonModel::Int(x as int)),
            None => None,
        };
        lemma_whole_put_opt(m3, "bit_depth"@, v4);
        let m4 = put_opt(m3, "bit_depth"@, v4);
        assert(self.encode() == JsonModel::Object(m4));
    }
}

impl PlayerFormatRequest {
    /// This value as its record on the wire.
    pub fn to_json(&self) -> (j: Json)
        ensures
            j@ == self@.encode(),
    {
        let mut members: Vec<Member> = no_members();
        match &self.codec {
            Some(x) => {
                put_member(&mut members, "codec", Json::Str(x.clone()));
            },
            None => {},
        }
        match &self.channels {
            Some(x) => {
                put_member(&mut members, "channels", Json::Int(*x as i64));
            },
            None => {},
        }
        match &self.sample_rate {
            Some(x) => {
                put_member(&mut members, "sample_rate", Json::Int(*x as i64));
            },
            None => {},
        }
        match &self.bit_depth {
            Some(x) => {
                put_member(&mut members, "bit_depth", Json::Int(*x as i64));
            },
            None => {},
        }
        Json::Object(members)
    }

    /// Reads a value from its record on the wire; `None` where the record
    /// stands for none.
    pub fn from_json(j: &Json) -> (r: Option<PlayerFormatRequest>)
        ensures
            match r {
                Some(value) => PlayerFormatRequestModel::decode(j@) == Some(value@),
                None => PlayerFormatRequestModel::decode(j@) is None,
            },
    {
        if !j.is_object() {
            return None;
        }
        let codec: Option<String> = match j.get_present("codec") {
            Some(v) => match v.as_string() {
                Some(x) => Some(x),
                None => {
                    return None;
                },
            },
            None => None,
        };
        let channels: Option<u8> = match j.get_present("channels") {
            Some(v) => match v.as_u8() {
                Some(x) => Some(x),
                None => {
                    return None;
                },
            },
            None => None,
        };
        let sample_rate: Option<u32> = match j.get_present("sample_rate") {
            Some(v) => match v.as_u32() {
                Some(x) => Some(x),
                None => {
                    return None;
                },
            },
            None => None,
        };
        let bit_depth: Option<u8> = match j.get_present("bit_depth") {
            Some(v) => match v.as_u8() {
                Some(x) => Some(x),
                None => {
                    return None;
                },
            },
            None => None,
        };
        Some(PlayerFormatRequest { codec, channels, sample_rate, bit_depth })
    }
}

/// A wish for an artwork format.
#[derive(Debug, Clone)]
pub struct ArtworkFormatRequest {
    /// Artwork channel.
    pub channel: u8,
    /// Source of the image.
    pub source: Option<String>,
    /// Format of the image: jpeg, png or bmp.
    pub format: Option<String>,
    /// Width of the display in pixels.
    pub media_width: Option<u32>,
    /// Height of the display in pixels.
    pub media_height: Option<u32>,
}

/// A `ArtworkFormatRequest` over plain values.
pub ghost struct ArtworkFormatRequestModel {
    pub channel: u8,
    pub source: Option<Seq<char>>,
    pub format: Option<Seq<char>>,
    pub media_width: Option<u32>,
    pub media_height: Option<u32>,
}

impl View for ArtworkFormatRequest {
    type V = ArtworkFormatRequestModel;

    open spec fn view(&self) -> ArtworkFormatRequestModel {
        ArtworkFormatRequestModel {
            channel: self.channel,
            source: match self.source {
                Some(x) => Some(x@),
                None => None,
            },
            format: match self.format {
                Some(x) => Some(x@),
                None => None,
            },
            media_width: self.media_width,
            media_height: self.media_height,
        }
    }
}

impl ArtworkFormatRequestModel {
    /// The record on the wire: each member under its name, and an absent
    /// optional member left out.
    pub open spec fn encode(self) -> JsonModel {
        let m0 = Seq::<(Seq<char>, JsonModel)>::empty();
        let m1 = put(m0, "channel"@, JsonModel::Int(self.channel as int));
        let m2 = put_opt(
            m1,
            "source"@,
            match self.source {
                Some(x) => Some(JsonModel::Str(x)),
                None => None,
            },
        );
        let m3 = put_opt(
            m2,
            "format"@,
            match self.format {
                Some(x) => Some(JsonModel::Str(x)),
                None => None,
            },
        );
        let m4 = put_opt(
            m3,
            "media_width"@,
            match self.media_width {
                Some(x) => Some(JsonModel::Int(x as int)),
                None => None,
            },
        );
        let m5 = put_opt(
            m4,
            "media_height"@,
            match self.media_height {
                Some(x) => Some(JsonModel::Int(x as int)),
                None => None,
            },
        );
        JsonModel::Object(m5)
    }

    /// The value that a record on the wire stands for. The record must be
    /// an object. A required member must be there and of its type. An
    /// optional member may be absent or `null`, and must else be of its
    /// type. Members of other names are passed over.
    pub open spec fn decode(j: JsonModel) -> Option<ArtworkFormatRequestModel> {
        match j {
            JsonModel::Object(members) => {
                let channel = match lookup(members, "channel"@) {
                    Some(v) => v.as_u8(),
                    None => None,
                };
                let source = match present(members, "source"@) {
                    Some(v) => found(v.as_str()),
                    None => Some(None),
                };
                let format = match present(members, "format"@) {
                    Some(v) => found(v.as_str()),
                    None => Some(None),
                };
                let media_width = match present(members, "media_width"@) {
                    Some(v) => found(v.as_u32()),
                    None => Some(None),
                };
                let media_height = match present(members, "media_height"@) {
                    Some(v) => found(v.as_u32()),
                    None => Some(None),
                };
                let complete = channel is Some
                    && source is Some
                    && format is Some
                    && media_width is Some
                    && media_height is Some;
                if complete {
                    Some(ArtworkFormatRequestModel {
                        channel: channel->Some_0,
                        source: source->Some_0,
                        format: format->Some_0,
                        media_width: media_width->Some_0,
                        media_height: media_height->Some_0,
                    })
                } else {
                    None
                }
            },
            _ => None,
        }
    }

    /// Every value is read back from its record on the wire.
    pub proof fn lemma_round_trip(self)
        ensures
            Self::decode(self.encode()) == Some(self),
            self.encode() is Object,
    {
        reveal_strlit("channel");
        reveal_strlit("source");
        reveal_strlit("format");
        reveal_strlit("media_width");
        reveal_strlit("media_height");
        assert("channel"@.len() != "source"@.len());
        assert("channel"@.len() != "format"@.len());
        assert("channel"@.len() != "media_width"@.len());
        assert("channel"@.len() != "media_height"@.len());
        assert("source"@[0] != "format"@[0]);
        assert("source"@.len() != "media_width"@.len());
        assert("source"@.len() != "media_height"@.len());
        assert("format"@.len() != "media_width"@.len());
        assert("format"@.len() != "media_height"@.len());
        assert("media_width"@.len() != "media_height"@.len());
        let m0 = Seq::<(Seq<char>, JsonModel)>::empty();
        let v1 = JsonModel::Int(self.channel as int);
        let m1 = put(m0, "channel"@, v1);
        let v2 = match self.source {
            Some(x) => Some(JsonModel::Str(x)),
            None => None,
        };
        let m2 = put_opt(m1, "source"@, v2);
        let v3 = match self.format {
            Some(x) => Some(JsonModel::Str(x)),
            None => None,
        };
        let m3 = put_opt(m2, "format"@, v3);
        let v4 = match self.media_width {
            Some(x) => Some(JsonModel::Int(x as int)),
            None => None,
        };
        let m4 = put_opt(m3, "media_width"@, v4);
        let v5 = match self.media_height {
            Some(x) => Some(JsonModel::Int(x as int)),
            None => None,
        };
        let m5 = put_opt(m4, "media_height"@, v5);
        assert(self.encode() == JsonModel::Object(m5));
        assert(lookup(m5, "channel"@) == Some(v1)) by {
            lemma_lookup_put_opt(m4, "media_height"@, v5, "channel"@);
            lemma_lookup_put_opt(m3, "media_width"@, v4, "channel"@);
            lemma_lookup_put_opt(m2, "format"@, v3, "channel"@);
            lemma_lookup_put_opt(m1, "source"@, v2, "channel"@);
            lemma_lookup_put(m0, "channel"@, v1, "channel"@);
        }
        assert(lookup(m5, "source"@) == v2) by {
            lemma_lookup_put_opt(m4, "media_height"@, v5, "source"@);
            lemma_lookup_put_opt(m3, "media_width"@, v4, "source"@);
            lemma_lookup_put_opt(m2, "format"@, v3, "source"@);
            lemma_lookup_put_opt(m1, "source"@, v2, "source"@);
            lemma_lookup_put(m0, "channel"@, v1, "source"@);
        }
        assert(lookup(m5, "format"@) == v3) by {
            lemma_lookup_put_opt(m4, "media_height"@, v5, "format"@);
            lemma_lookup_put_opt(m3, "media_width"@, v4, "format"@);
            lemma_lookup_put_opt(m2, "format"@, v3, "format"@);
            lemma_lookup_put_opt(m1, "source"@, v2, "format"@);
            lemma_lookup_put(m0, "channel"@, v1, "format"@);
        }
        assert(lookup(m5, "media_width"@) == v4) by {
            lemma_lookup_put_opt(m4, "media_height"@, v5, "media_width"@);
            lemma_lookup_put_opt(m3, "media_width"@, v4, "media_width"@);
            lemma_lookup_put_opt(m2, "format"@, v3, "media_width"@);
            lemma_lookup_put_opt(m1, "source"@, v2, "media_width"@);
            lemma_lookup_put(m0, "channel"@, v1, "media_width"@);
        }
        assert(lookup(m5, "media_height"@) == v5) by {
            lemma_lookup_put_opt(m4, "media_height"@, v5, "media_height"@);
            lemma_lookup_put_opt(m3, "media_width"@, v4, "media_height"@);
            lemma_lookup_put_opt(m2, "format"@, v3, "media_height"@);
            lemma_lookup_put_opt(m1, "source"@, v2, "media_height"@);
            lemma_lookup_put(m0, "channel"@, v1, "media_height"@);
        }
    }

    /// The record holds whole numbers only.
    pub proof fn lemma_whole(self)
        ensures
            whole_numbers(self.encode()),
    {
        let m0 = Seq::<(Seq<char>, JsonModel)>::empty();
        assert(whole_members(m0));
        let v1 = JsonModel::Int(self.channel as int);
        lemma_whole_put(m0, "channel"@, v1);
        let m1 = put(m0, "channel"@, v1);
        let v2 = match self.source {
            Some(x) => Some(JsonModel::Str(x)),
            None => None,
        };
        lemma_whole_put_opt(m1, "source"@, v2);
        let m2 = put_opt(m1, "source"@, v2);
        let v3 = match self.format {
            Some(x) => Some(JsonModel::Str(x)),
            None => None,
        };
        lemma_whole_put_opt(m2, "format"@, v3);
        let m3 = put_opt(m2, "format"@, v3);
        let v4 = match self.media_width {
            Some(x) => Some(JsonModel::Int(x as int)),
            None => None,
        };
        lemma_whole_put_opt(m3, "media_width"@, v4);
        let m4 = put_opt(m3, "media_width"@, v4);
        let v5 = match self.media_height {
            Some(x) => Some(JsonModel::Int(x as int)),
            None => None,
        };
        lemma_whole_put_opt(m4, "media_height"@, v5);
        let m5 = put_opt(m4, "media_height"@, v5);
        assert(self.encode() == JsonModel::Object(m5));
    }
}

impl ArtworkFormatRequest {
    /// This value as its record on the wire.
    pub fn to_json(&self) -> (j: Json)
        ensures
            j@ == self@.encode(),
    {
        let mut members: Vec<Member> = no_members();
        put_member(&mut members, "channel", Json::Int(self.channel as i64));
        match &self.source {
            Some(x) => {
                put_member(&mut members, "source", Json::Str(x.clone()));
            },
            None => {},
        }
        match &self.format {
            Some(x) => {
                put_member(&mut members, "format", Json::Str(x.clone()));
            },
            None => {},
        }
        match &self.media_width {
            Some(x) => {
                put_member(&mut members, "media_width", Json::Int(*x as i64));
            },
            None => {},
        }
        match &self.media_height {
            Some(x) => {
                put_member(&mut members, "media_height", Json::Int(*x as i64));
            },
            None => {},
        }
        Json::Object(members)
    }

    /// Reads a value from its record on the wire; `None` where the record
    /// stands for none.
    pub fn from_json(j: &Json) -> (r: Option<ArtworkFormatRequest>)
        ensures
            match r {
                Some(value) => ArtworkFormatRequestModel::decode(j@) == Some(value@),
                None => ArtworkFormatRequestModel::decode(j@) is None,
            },
    {
        if !j.is_object() {
            return None;
        }
        let channel: u8 = match j.get("channel") {
            Some(v) => match v.as_u8() {
                Some(x) => x,
                None => {
                    return None;
                },
            },
            None => {
                return None;
            },
        };
        let source: Option<String> = match j.get_present("source") {
            Some(v) => match v.as_string() {
                Some(x) => Some(x),
                None => {
                    return None;
                },
            },
            None => None,
        };
        let format: Option<String> = match j.get_present("format") {
            Some(v) => match v.as_string() {
                Some(x) => Some(x),
                None => {
                    return None;
                },
            },
            None => None,
        };
        let media_width: Option<u32> = match j.get_present("media_width") {
            Some(v) => match v.as_u32() {
                Some(x) => Some(x),
                None => {
                    return None;
                },
            },
            None => None,
        };
        let media_height: Option<u32> = match j.get_present("media_height") {
            Some(v) => match v.as_u32() {
                Some(x) => Some(x),
                None => {
                    return None;
                },
            },
            None => None,
        };
        Some(ArtworkFormatRequest {
            channel,
            source,
            format,
            media_width,
            media_height,
        })
    }
}

/// News of the group that the client belongs to.
#[derive(Debug, Clone)]
pub struct GroupUpdate {
    /// What the group does.
    pub playback_state: Option<PlaybackState>,
    /// Identifier of the group.
    pub group_id: Option<String>,
    /// Name of the group for people to read.
    pub group_name: Option<String>,
}

/// A `GroupUpdate` over plain values.
pub ghost struct GroupUpdateModel {
    pub playback_state: Option<PlaybackState>,
    pub group_id: Option<Seq<char>>,
    pub group_name: Option<Seq<char>>,
}

impl View for GroupUpdate {
    type V = GroupUpdateModel;

    open spec fn view(&self) -> GroupUpdateModel {
        GroupUpdateModel {
            playback_state: self.playback_state,
            group_id: match self.group_id {
                Some(x) => Some(x@),
                None => None,
            },
            group_name: match self.group_name {
                Some(x) => Some(x@),
                None => None,
            },
        }
    }
}

impl GroupUpdateModel {
    /// The record on the wire: each member under its name, and an absent
    /// optional member left out.
    pub open spec fn encode(self) -> JsonModel {
        let m0 = Seq::<(Seq<char>, JsonModel)>::empty();
        let m1 = put_opt(
            m0,
            "playback_state"@,
            match self.playback_state {
                Some(x) => Some(x.spec_to_json()),
                None => None,
            },
        );
        let m2 = put_opt(
            m1,
            "group_id"@,
            match self.group_id {
                Some(x) => Some(JsonModel::Str(x)),
                None => None,
            },
        );
        let m3 = put_opt(
            m2,
            "group_name"@,
            match self.group_name {
                Some(x) => Some(JsonModel::Str(x)),
                None => None,
            },
        );
        JsonModel::Object(m3)
    }

    /// The value that a record on the wire stands for. The record must be
    /// an object. A required member must be there and of its type. An
    /// optional member may be absent or `null`, and must else be of its
    /// type. Members of other names are passed over.
    pub open spec fn decode(j: JsonModel) -> Option<GroupUpdateModel> {
        match j {
            JsonModel::Object(members) => {
                let playback_state = match present(members, "playback_state"@) {
                    Some(v) => found(PlaybackState::spec_from_json(v)),
                    None => Some(None),
                };
                let group_id = match present(members, "group_id"@) {
                    Some(v) => found(v.as_str()),
                    None => Some(None),
                };
                let group_name = match present(members, "group_name"@) {
                    Some(v) => found(v.as_str()),
                    None => Some(None),
                };
                let complete = playback_state is Some
                    && group_id is Some
                    && group_name is Some;
                if complete {
                    Some(GroupUpdateModel {
                        playback_state: playback_state->Some_0,
                        group_id: group_id->Some_0,
                        group_name: group_name->Some_0,
                    })
                } else {
                    None
                }
            },
            _ => None,
        }
    }

    /// Every value is read back from its record on the wire.
    pub proof fn lemma_round_trip(self)
        ensures
            Self::decode(self.encode()) == Some(self),
            self.encode() is Object,
    {
        reveal_strlit("playback_state");
        reveal_strlit("group_id");
        reveal_strlit("group_name");
        assert("playback_state"@.len() != "group_id"@.len());
        assert("playback_state"@.len() != "group_name"@.len());
        assert("group_id"@.len() != "group_name"@.len());
        let m0 = Seq::<(Seq<char>, JsonModel)>::empty();
        let v1 = match self.playback_state {
            Some(x) => Some(x.spec_to_json()),
            None => None,
        };
        let m1 = put_opt(m0, "playback_state"@, v1);
        let v2 = match self.group_id {
            Some(x) => Some(JsonModel::Str(x)),
            None => None,
        };
        let m2 = put_opt(m1, "group_id"@, v2);
        let v3 = match self.group_name {
            Some(x) => Some(JsonModel::Str(x)),
            None => None,
        };
        let m3 = put_opt(m2, "group_name"@, v3);
        assert(self.encode() == JsonModel::Object(m3));
        assert(lookup(m3, "playback_state"@) == v1) by {
            lemma_lookup_put_opt(m2, "group_name"@, v3, "playback_state"@);
            lemma_lookup_put_opt(m1, "group_id"@, v2, "playback_state"@);
            lemma_lookup_put_opt(m0, "playback_state"@, v1, "playback_state"@);
        }
        assert(lookup(m3, "group_id"@) == v2) by {
            lemma_lookup_put_opt(m2, "group_name"@, v3, "group_id"@);
            lemma_lookup_put_opt(m1, "group_id"@, v2, "group_id"@);
            lemma_lookup_put_opt(m0, "playback_state"@, v1, "group_id"@);
        }
        assert(lookup(m3, "group_name"@) == v3) by {
            lemma_lookup_put_opt(m2, "group_name"@, v3, "group_name"@);
            lemma_lookup_put_opt(m1, "group_id"@, v2, "group_name"@);
            lemma_lookup_put_opt(m0, "playback_state"@, v1, "group_name"@);
        }
        if self.playback_state is Some {
            self.playback_state->Some_0.lemma_json_round_trip();
        }
    }

    /// The record holds whole numbers only.
    pub proof fn lemma_whole(self)
        ensures
            whole_numbers(self.encode()),
    {
        let m0 = Seq::<(Seq<char>, JsonModel)>::empty();
        assert(whole_members(m0));
        let v1 = match self.playback_state {
            Some(x) => Some(x.spec_to_json()),
            None => None,
        };
        lemma_whole_put_opt(m0, "playback_state"@, v1);
        let m1 = put_opt(m0, "playback_state"@, v1);
        let v2 = match self.group_id {
            Some(x) => Some(JsonModel::Str(x)),
            None => None,
        };
        lemma_whole_put_opt(m1, "group_id"@, v2);
        let m2 = put_opt(m1, "group_id"@, v2);
        let v3 = match self.group_name {
            Some(x) => Some(JsonModel::Str(x)),
            None => None,
        };
        lemma_whole_put_opt(m2, "group_name"@, v3);
        let m3 = put_opt(m2, "group_name"@, v3);
        assert(self.encode() == JsonModel::Object(m3));
    }
}

impl GroupUpdate {
    /// This value as its record on the wire.
    pub fn to_json(&self) -> (j: Json)
        ensures
            j@ == self@.encode(),
    {
        let mut members: Vec<Member> = no_members();
        match &self.playback_state {
            Some(x) => {
                put_member(&mut members, "playback_state", x.to_json());
            },
            None => {},
        }
        match &self.group_id {
            Some(x) => {
                put_member(&mut members, "group_id", Json::Str(x.clone()));
            },
            None => {},
        }
        match &self.group_name {
            Some(x) => {
                put_member(&mut members, "group_name", Json::Str(x.clone()));
            },
            None => {},
        }
        Json::Object(members)
    }

    /// Reads a value from its record on the wire; `None` where the record
    /// stands for none.
    pub fn from_json(j: &Json) -> (r: Option<GroupUpdate>)
        ensures
            match r {
                Some(value) => GroupUpdateModel::decode(j@) == Some(value@),
                None => GroupUpdateModel::decode(j@) is None,
            },
    {
        if !j.is_object() {
            return None;
        }
        let playback_state: Option<PlaybackState> = match j.get_present("playback_state") {
            Some(v) => match PlaybackState::from_json(v) {
                Some(x) => Some(x),
                None => {
                    return None;
                },
            },
            None => None,
        };
        let group_id: Option<String> = match j.get_present("group_id") {
            Some(v) => match v.as_string() {
                Some(x) => Some(x),
                None => {
                    return None;
                },
            },
            None => None,
        };
        let group_name: Option<String> = match j.get_present("group_name") {
            Some(v) => match v.as_string() {
                Some(x) => Some(x),
                None => {
                    return None;
                },
            },
            None => None,
        };
        Some(GroupUpdate { playback_state, group_id, group_name })
    }
}

/// What a group does.
#[derive(Debug, Clone, Copy, PartialEq, Eq, Structural)]
pub enum PlaybackState {
    /// It plays.
    Playing,
    /// It pauses.
    Paused,
    /// It has stopped.
    Stopped,
}

impl PlaybackState {
    /// The name of a value on the wire.
    pub open spec fn spec_wire(self) -> Seq<char> {
        match self {
            PlaybackState::Playing => "playing"@,
            PlaybackState::Paused => "paused"@,
            PlaybackState::Stopped => "stopped"@,
        }
    }

    /// The value that a name on the wire stands for, if it stands for one.
    pub open spec fn spec_from_wire(name: Seq<char>) -> Option<Self> {
        if name == "playing"@ {
            Some(PlaybackState::Playing)
        } else if name == "paused"@ {
            Some(PlaybackState::Paused)
        } else if name == "stopped"@ {
            Some(PlaybackState::Stopped)
        } else {
            None
        }
    }

    /// A value as a JSON value: its name on the wire, as a text.
    pub open spec fn spec_to_json(self) -> JsonModel {
        JsonModel::Str(self.spec_wire())
    }

    /// The value that a JSON value stands for: it must be a text, and a name on the wire.
    pub open spec fn spec_from_json(j: JsonModel) -> Option<Self> {
        match j {
            JsonModel::Str(name) => Self::spec_from_wire(name),
            _ => None,
        }
    }

    /// The name of this value on the wire.
    pub fn as_wire(&self) -> (name: &'static str)
        ensures
            name@ == self.spec_wire(),
    {
        match self {
            PlaybackState::Playing => "playing",
            PlaybackState::Paused => "paused",
            PlaybackState::Stopped => "stopped",
        }
    }

    /// Reads a name from the wire; `None` for a name that stands for no value.
    pub fn from_wire(name: &str) -> (value: Option<Self>)
        ensures
            value == Self::spec_from_wire(name@),
    {
        if same_text(name, "playing") {
            Some(PlaybackState::Playing)
        } else if same_text(name, "paused") {
            Some(PlaybackState::Paused)
        } else if same_text(name, "stopped") {
            Some(PlaybackState::Stopped)
        } else {
            None
        }
    }

    /// This value as a JSON value.
    pub fn to_json(&self) -> (j: Json)
        ensures
            j@ == self.spec_to_json(),
    {
        Json::text(self.as_wire())
    }

    /// Reads a value from a JSON value; `None` where it stands for none.
    pub fn from_json(j: &Json) -> (value: Option<Self>)
        ensures
            value == Self::spec_from_json(j@),
    {
        match j.as_str() {
            Some(name) => Self::from_wire(name),
            None => None,
        }
    }

    /// Every value is read back from its name on the wire.
    pub proof fn lemma_wire_round_trip(self)
        ensures
            Self::spec_from_wire(self.spec_wire()) == Some(self),
    {
        reveal_strlit("playing");
        reveal_strlit("paused");
        reveal_strlit("stopped");
        assert("playing"@.len() != "paused"@.len());
        assert("playing"@[0] != "stopped"@[0]);
        assert("paused"@.len() != "stopped"@.len());
    }

    /// Every value is read back from its JSON value.
    pub proof fn lemma_json_round_trip(self)
        ensures
            Self::spec_from_json(self.spec_to_json()) == Some(self),
            !(self.spec_to_json() is Null),
    {
        self.lemma_wire_round_trip();
    }
}

/// The client's last message.
#[derive(Debug, Clone, Copy, PartialEq, Eq, Structural)]
pub struct ClientGoodbye {
    /// Why the client leaves.
    pub reason: GoodbyeReason,
}

impl ClientGoodbye {
    /// The record on the wire: each member under its name, and an absent
    /// optional member left out.
    pub open spec fn encode(self) -> JsonModel {
        let m0 = Seq::<(Seq<char>, JsonModel)>::empty();
        let m1 = put(m0, "reason"@, self.reason.spec_to_json());
        JsonModel::Object(m1)
    }

    /// The value that a record on the wire stands for. The record must be
    /// an object. A required member must be there and of its type. An
    /// optional member may be absent or `null`, and must else be of its
    /// type. Members of other names are passed over.
    pub open spec fn decode(j: JsonModel) -> Option<ClientGoodbye> {
        match j {
            JsonModel::Object(members) => {
                let reason = match lookup(members, "reason"@) {
                    Some(v) => GoodbyeReason::spec_from_json(v),
                    None => None,
                };
                let complete = reason is Some;
                if complete {
                    Some(ClientGoodbye {
                        reason: reason->Some_0,
                    })
                } else {
                    None
                }
            },
            _ => None,
        }
    }

    /// Every value is read back from its record on the wire.
    pub proof fn lemma_round_trip(self)
        ensures
            Self::decode(self.encode()) == Some(self),
            self.encode() is Object,
    {
        reveal_strlit("reason");
        let m0 = Seq::<(Seq<char>, JsonModel)>::empty();
        let v1 = self.reason.spec_to_json();
        let m1 = put(m0, "reason"@, v1);
        assert(self.encode() == JsonModel::Object(m1));
        assert(lookup(m1, "reason"@) == Some(v1)) by {
            lemma_lookup_put(m0, "reason"@, v1, "reason"@);
        }
        self.reason.lemma_json_round_trip();
    }

    /// The record holds whole numbers only.
    pub proof fn lemma_whole(self)
        ensures
            whole_numbers(self.encode()),
    {
        let m0 = Seq::<(Seq<char>, JsonModel)>::empty();
        assert(whole_members(m0));
        let v1 = self.reason.spec_to_json();
        lemma_whole_put(m0, "reason"@, v1);
        let m1 = put(m0, "reason"@, v1);
        assert(self.encode() == JsonModel::Object(m1));
    }
}

impl ClientGoodbye {
    /// This value as its record on the wire.
    pub fn to_json(&self) -> (j: Json)
        ensures
            j@ == self.encode(),
    {
        let mut members: Vec<Member> = no_members();
        put_member(&mut members, "reason", self.reason.to_json());
        Json::Object(members)
    }

    /// Reads a value from its record on the wire; `None` where the record
    /// stands for none.
    pub fn from_json(j: &Json) -> (r: Option<ClientGoodbye>)
        ensures
            r == ClientGoodbye::decode(j@),
    {
        if !j.is_object() {
            return None;
        }
        let reason: GoodbyeReason = match j.get("reason") {
            Some(v) => match GoodbyeReason::from_json(v) {
                Some(x) => x,
                None => {
                    return None;
                },
            },
            None => {
                return None;
            },
        };
        Some(ClientGoodbye { reason })
    }
}

/// Why a client leaves.
#[derive(Debug, Clone, Copy, PartialEq, Eq, Structural)]
pub enum GoodbyeReason {
    /// It goes to another server.
    AnotherServer,
    /// It shuts down.
    Shutdown,
    /// It starts again.
    Restart,
    /// Its user asked for it.
    UserRequest,
}

impl GoodbyeReason {
    /// The name of a value on the wire.
    pub open spec fn spec_wire(self) -> Seq<char> {
        match self {
            GoodbyeReason::AnotherServer => "another_server"@,
            GoodbyeReason::Shutdown => "shutdown"@,
            GoodbyeReason::Restart => "restart"@,
            GoodbyeReason::UserRequest => "user_request"@,
        }
    }

    /// The value that a name on the wire stands for, if it stands for one.
    pub open spec fn spec_from_wire(name: Seq<char>) -> Option<Self> {
        if name == "another_server"@ {
            Some(GoodbyeReason::AnotherServer)
        } else if name == "shutdown"@ {
            Some(GoodbyeReason::Shutdown)
        } else if name == "restart"@ {
            Some(GoodbyeReason::Restart)
        } else if name == "user_request"@ {
            Some(GoodbyeReason::UserRequest)
        } else {
            None
        }
    }

    /// A value as a JSON value: its name on the wire, as a text.
    pub open spec fn spec_to_json(self) -> JsonModel {
        JsonModel::Str(self.spec_wire())
    }

    /// The value that a JSON value stands for: it must be a text, and a name on the wire.
    pub open spec fn spec_from_json(j: JsonModel) -> Option<Self> {
        match j {
            JsonModel::Str(name) => Self::spec_from_wire(name),
            _ => None,
        }
    }

    /// The name of this value on the wire.
    pub fn as_wire(&self) -> (name: &'static str)
        ensures
            name@ == self.spec_wire(),
    {
        match self {
            GoodbyeReason::AnotherServer => "another_server",
            GoodbyeReason::Shutdown => "shutdown",
            GoodbyeReason::Restart => "restart",
            GoodbyeReason::UserRequest => "user_request",
        }
    }

    /// Reads a name from the wire; `None` for a name that stands for no value.
    pub fn from_wire(name: &str) -> (value: Option<Self>)
        ensures
            value == Self::spec_from_wire(name@),
    {
        if same_text(name, "another_server") {
            Some(GoodbyeReason::AnotherServer)
        } else if same_text(name, "shutdown") {
            Some(GoodbyeReason::Shutdown)
        } else if same_text(name, "restart") {
            Some(GoodbyeReason::Restart)
        } else if same_text(name, "user_request") {
            Some(GoodbyeReason::UserRequest)
        } else {
            None
        }
    }

    /// This value as a JSON value.
    pub fn to_json(&self) -> (j: Json)
        ensures
            j@ == self.spec_to_json(),
    {
        Json::text(self.as_wire())
    }

    /// Reads a value from a JSON value; `None` where it stands for none.
    pub fn from_json(j: &Json) -> (value: Option<Self>)
        ensures
            value == Self::spec_from_json(j@),
    {
        match j.as_str() {
            Some(name) => Self::from_wire(name),
            None => None,
        }
    }

    /// Every value is read back from its name on the wire.
    pub proof fn lemma_wire_round_trip(self)
        ensures
            Self::spec_from_wire(self.spec_wire()) == Some(self),
    {
        reveal_strlit("another_server");
        reveal_strlit("shutdown");
        reveal_strlit("restart");
        reveal_strlit("user_request");
        assert("another_server"@.len() != "shutdown"@.len());
        assert("another_server"@.len() != "restart"@.len());
        assert("another_server"@.len() != "user_request"@.len());
        assert("shutdown"@.len() != "restart"@.len());
        assert("shutdown"@.len() != "user_request"@.len());
        assert("restart"@.len() != "user_request"@.len());
    }

    /// Every value is read back from its JSON value.
    pub proof fn lemma_json_round_trip(self)
        ensures
            Self::spec_from_json(self.spec_to_json()) == Some(self),
            !(self.spec_to_json() is Null),
    {
        self.lemma_wire_round_trip();
    }
}

/// The fourteen kinds of message, each with its `type` on the wire.
#[derive(Debug, Clone, Copy, PartialEq, Eq, Structural)]
pub enum MessageKind {
    /// The client's opening message.
    ClientHello,
    /// The server's answer to it.
    ServerHello,
    /// The client's half of a clock exchange.
    ClientTime,
    /// The server's half of a clock exchange.
    ServerTime,
    /// The state that the client reports.
    ClientState,
    /// The state that the server reports.
    ServerState,
    /// A command from the server.
    ServerCommand,
    /// A command from the client.
    ClientCommand,
    /// The start of a stream.
    StreamStart,
    /// The end of a stream.
    StreamEnd,
    /// The order to discard what is buffered.
    StreamClear,
    /// A client's wish for another format.
    StreamRequestFormat,
    /// News of the group.
    GroupUpdate,
    /// The client's last message.
    ClientGoodbye,
}

impl MessageKind {
    /// The name of a value on the wire.
    pub open spec fn spec_wire(self) -> Seq<char> {
        match self {
            MessageKind::ClientHello => "client/hello"@,
            MessageKind::ServerHello => "server/hello"@,
            MessageKind::ClientTime => "client/time"@,
            MessageKind::ServerTime => "server/time"@,
            MessageKind::ClientState => "client/state"@,
            MessageKind::ServerState => "server/state"@,
            MessageKind::ServerCommand => "server/command"@,
            MessageKind::ClientCommand => "client/command"@,
            MessageKind::StreamStart => "stream/start"@,
            MessageKind::StreamEnd => "stream/end"@,
            MessageKind::StreamClear => "stream/clear"@,
            MessageKind::StreamRequestFormat => "stream/request-format"@,
            MessageKind::GroupUpdate => "group/update"@,
            MessageKind::ClientGoodbye => "client/goodbye"@,
        }
    }

    /// The value that a name on the wire stands for, if it stands for one.
    pub open spec fn spec_from_wire(name: Seq<char>) -> Option<Self> {
        if name == "client/hello"@ {
            Some(MessageKind::ClientHello)
        } else if name == "server/hello"@ {
            Some(MessageKind::ServerHello)
        } else if name == "client/time"@ {
            Some(MessageKind::ClientTime)
        } else if name == "server/time"@ {
            Some(MessageKind::ServerTime)
        } else if name == "client/state"@ {
            Some(MessageKind::ClientState)
        } else if name == "server/state"@ {
            Some(MessageKind::ServerState)
        } else if name == "server/command"@ {
            Some(MessageKind::ServerCommand)
        } else if name == "client/command"@ {
            Some(MessageKind::ClientCommand)
        } else if name == "stream/start"@ {
            Some(MessageKind::StreamStart)
        } else if name == "stream/end"@ {
            Some(MessageKind::StreamEnd)
        } else if name == "stream/clear"@ {
            Some(MessageKind::StreamClear)
        } else if name == "stream/request-format"@ {
            Some(MessageKind::StreamRequestFormat)
        } else if name == "group/update"@ {
            Some(MessageKind::GroupUpdate)
        } else if name == "client/goodbye"@ {
            Some(MessageKind::ClientGoodbye)
        } else {
            None
        }
    }

    /// A value as a JSON value: its name on the wire, as a text.
    pub open spec fn spec_to_json(self) -> JsonModel {
        JsonModel::Str(self.spec_wire())
    }

    /// The value that a JSON value stands for: it must be a text, and a name on the wire.
    pub open spec fn spec_from_json(j: JsonModel) -> Option<Self> {
        match j {
            JsonModel::Str(name) => Self::spec_from_wire(name),
            _ => None,
        }
    }

    /// The name of this value on the wire.
    pub fn as_wire(&self) -> (name: &'static str)
        ensures
            name@ == self.spec_wire(),
    {
        match self {
            MessageKind::ClientHello => "client/hello",
            MessageKind::ServerHello => "server/hello",
            MessageKind::ClientTime => "client/time",
            MessageKind::ServerTime => "server/time",
            MessageKind::ClientState => "client/state",
            MessageKind::ServerState => "server/state",
            MessageKind::ServerCommand => "server/command",
            MessageKind::ClientCommand => "client/command",
            MessageKind::StreamStart => "stream/start",
            MessageKind::StreamEnd => "stream/end",
            MessageKind::StreamClear => "stream/clear",
            MessageKind::StreamRequestFormat => "stream/request-format",
            MessageKind::GroupUpdate => "group/update",
            MessageKind::ClientGoodbye => "client/goodbye",
        }
    }

    /// Reads a name from the wire; `None` for a name that stands for no value.
    pub fn from_wire(name: &str) -> (value: Option<Self>)
        ensures
            value == Self::spec_from_wire(name@),
    {
        if same_text(name, "client/hello") {
            Some(MessageKind::ClientHello)
        } else if same_text(name, "server/hello") {
            Some(MessageKind::ServerHello)
        } else if same_text(name, "client/time") {
            Some(MessageKind::ClientTime)
        } else if same_text(name, "server/time") {
            Some(MessageKind::ServerTime)
        } else if same_text(name, "client/state") {
            Some(MessageKind::ClientState)
        } else if same_text(name, "server/state") {
            Some(MessageKind::ServerState)
        } else if same_text(name, "server/command") {
            Some(MessageKind::ServerCommand)
        } else if same_text(name, "client/command") {
            Some(MessageKind::ClientCommand)
        } else if same_text(name, "stream/start") {
            Some(MessageKind::StreamStart)
        } else if same_text(name, "stream/end") {
            Some(MessageKind::StreamEnd)
        } else if same_text(name, "stream/clear") {
            Some(MessageKind::StreamClear)
        } else if same_text(name, "stream/request-format") {
            Some(MessageKind::StreamRequestFormat)
        } else if same_text(name, "group/update") {
            Some(MessageKind::GroupUpdate)
        } else if same_text(name, "client/goodbye") {
            Some(MessageKind::ClientGoodbye)
        } else {
            None
        }
    }

    /// This value as a JSON value.
    pub fn to_json(&self) -> (j: Json)
        ensures
            j@ == self.spec_to_json(),
    {
        Json::text(self.as_wire())
    }

    /// Reads a value from a JSON value; `None` where it stands for none.
    pub fn from_json(j: &Json) -> (value: Option<Self>)
        ensures
            value == Self::spec_from_json(j@),
    {
        match j.as_str() {
            Some(name) => Self::from_wire(name),
            None => None,
        }
    }

    /// Every value is read back from its name on the wire.
    pub proof fn lemma_wire_round_trip(self)
        ensures
            Self::spec_from_wire(self.spec_wire()) == Some(self),
    {
        reveal_strlit("client/hello");
        reveal_strlit("server/hello");
        reveal_strlit("client/time");
        reveal_strlit("server/time");
        reveal_strlit("client/state");
        reveal_strlit("server/state");
        reveal_strlit("server/command");
        reveal_strlit("client/command");
        reveal_strlit("stream/start");
        reveal_strlit("stream/end");
        reveal_strlit("stream/clear");
        reveal_strlit("stream/request-format");
        reveal_strlit("group/update");
        reveal_strlit("client/goodbye");
        assert("client/hello"@[0] != "server/hello"@[0]);
        assert("client/hello"@.len() != "client/time"@.len());
        assert("client/hello"@.len() != "server/time"@.len());
        assert("client/hello"@[7] != "client/state"@[7]);
        assert("client/hello"@[0] != "server/state"@[0]);
        assert("client/hello"@.len() != "server/command"@.len());
        assert("client/hello"@.len() != "client/command"@.len());
        assert("client/hello"@[0] != "stream/start"@[0]);
        assert("client/hello"@.len() != "stream/end"@.len());
        assert("client/hello"@[0] != "stream/clear"@[0]);
        assert("client/hello"@.len() != "stream/request-format"@.len());
        assert("client/hello"@[0] != "group/update"@[0]);
        assert("client/hello"@.len() != "client/goodbye"@.len());
        assert("server/hello"@.len() != "client/time"@.len());
        assert("server/hello"@.len() != "server/time"@.len());
        assert("server/hello"@[0] != "client/state"@[0]);
        assert("server/hello"@[7] != "server/state"@[7]);
        assert("server/hello"@.len() != "server/command"@.len());
        assert("server/hello"@.len() != "client/command"@.len());
        assert("server/hello"@[1] != "stream/start"@[1]);
        assert("server/hello"@.len() != "stream/end"@.len());
        assert("server/hello"@[1] != "stream/clear"@[1]);
        assert("server/hello"@.len() != "stream/request-format"@.len());
        assert("server/hello"@[0] != "group/update"@[0]);
        assert("server/hello"@.len() != "client/goodbye"@.len());
        assert("client/time"@[0] != "server/time"@[0]);
        assert("client/time"@.len() != "client/state"@.len());
        assert("client/time"@.len() != "server/state"@.len());
        assert("client/time"@.len() != "server/command"@.len());
        assert("client/time"@.len() != "client/command"@.len());
        assert("client/time"@.len() != "stream/start"@.len());
        assert("client/time"@.len() != "stream/end"@.len());
        assert("client/time"@.len() != "stream/clear"@.len());
        assert("client/time"@.len() != "stream/request-format"@.len());
        assert("client/time"@.len() != "group/update"@.len());
        assert("client/time"@.len() != "client/goodbye"@.len());
        assert("server/time"@.len() != "client/state"@.len());
        assert("server/time"@.len() != "server/state"@.len());
        assert("server/time"@.len() != "server/command"@.len());
        assert("server/time"@.len() != "client/command"@.len());
        assert("server/time"@.len() != "stream/start"@.len());
        assert("server/time"@.len() != "stream/end"@.len());
        assert("server/time"@.len() != "stream/clear"@.len());
        assert("server/time"@.len() != "stream/request-format"@.len());
        assert("server/time"@.len() != "group/update"@.len());
        assert("server/time"@.len() != "client/goodbye"@.len());
        assert("client/state"@[0] != "server/state"@[0]);
        assert("client/state"@.len() != "server/command"@.len());
        assert("client/state"@.len() != "client/command"@.len());
        assert("client/state"@[0] != "stream/start"@[0]);
        assert("client/state"@.len() != "stream/end"@.len());
        assert("client/state"@[0] != "stream/clear"@[0]);
        assert("client/state"@.len() != "stream/request-format"@.len());
        assert("client/state"@[0] != "group/update"@[0]);
        assert("client/state"@.len() != "client/goodbye"@.len());
        assert("server/state"@.len() != "server/command"@.len());
        assert("server/state"@.len() != "client/command"@.len());
        assert("server/state"@[1] != "stream/start"@[1]);
        assert("server/state"@.len() != "stream/end"@.len());
        assert("server/state"@[1] != "stream/clear"@[1]);
        assert("server/state"@.len() != "stream/request-format"@.len());
        assert("server/state"@[0] != "group/update"@[0]);
        assert("server/state"@.len() != "client/goodbye"@.len());
        assert("server/command"@[0] != "client/command"@[0]);
        assert("server/command"@.len() != "stream/start"@.len());
        assert("server/command"@.len() != "stream/end"@.len());
        assert("server/command"@.len() != "stream/clear"@.len());
        assert("server/command"@.len() != "stream/request-format"@.len());
        assert("server/command"@.len() != "group/update"@.len());
        assert("server/command"@[0] != "client/goodbye"@[0]);
        assert("client/command"@.len() != "stream/start"@.len());
        assert("client/command"@.len() != "stream/end"@.len());
        assert("client/command"@.len() != "stream/clear"@.len());
        assert("client/command"@.len() != "stream/request-format"@.len());
        assert("client/command"@.len() != "group/update"@.len());
        assert("client/command"@[7] != "client/goodbye"@[7]);
        assert("stream/start"@.len() != "stream/end"@.len());
        assert("stream/start"@[7] != "stream/clear"@[7]);
        assert("stream/start"@.len() != "stream/request-format"@.len());
        assert("stream/start"@[0] != "group/update"@[0]);
        assert("stream/start"@.len() != "client/goodbye"@.len());
        assert("stream/end"@.len() != "stream/clear"@.len());
        assert("stream/end"@.len() != "stream/request-format"@.len());
        assert("stream/end"@.len() != "group/update"@.len());
        assert("stream/end"@.len() != "client/goodbye"@.len());
        assert("stream/clear"@.len() != "stream/request-format"@.len());
        assert("stream/clear"@[0] != "group/update"@[0]);
        assert("stream/clear"@.len() != "client/goodbye"@.len());
        assert("stream/request-format"@.len() != "group/update"@.len());
        assert("stream/request-format"@.len() != "client/goodbye"@.len());
        assert("group/update"@.len() != "client/goodbye"@.len());
    }

    /// Every value is read back from its JSON value.
    pub proof fn lemma_json_round_trip(self)
        ensures
            Self::spec_from_json(self.spec_to_json()) == Some(self),
            !(self.spec_to_json() is Null),
    {
        self.lemma_wire_round_trip();
    }
}

/// A message of the protocol.
#[derive(Debug, Clone)]
pub enum Message {
    /// The client's opening message.
    ClientHello(ClientHello),
    /// The server's answer to it.
    ServerHello(ServerHello),
    /// The client's half of a clock exchange.
    ClientTime(ClientTime),
    /// The server's half of a clock exchange.
    ServerTime(ServerTime),
    /// The state that the client reports.
    ClientState(ClientState),
    /// The state that the server reports.
    ServerState(ServerState),
    /// A command from the server.
    ServerCommand(ServerCommand),
    /// A command from the client.
    ClientCommand(ClientCommand),
    /// The start of a stream.
    StreamStart(StreamStart),
    /// The end of a stream.
    StreamEnd(StreamEnd),
    /// The order to discard what is buffered.
    StreamClear(StreamClear),
    /// A client's wish for another format.
    StreamRequestFormat(StreamRequestFormat),
    /// News of the group.
    GroupUpdate(GroupUpdate),
    /// The client's last message.
    ClientGoodbye(ClientGoodbye),
}

/// A message over plain values.
pub ghost enum MessageModel {
    ClientHello(ClientHelloModel),
    ServerHello(ServerHelloModel),
    ClientTime(ClientTime),
    ServerTime(ServerTime),
    ClientState(ClientState),
    ServerState(ServerStateModel),
    ServerCommand(ServerCommandModel),
    ClientCommand(ClientCommandModel),
    StreamStart(StreamStartModel),
    StreamEnd(StreamEndModel),
    StreamClear(StreamClearModel),
    StreamRequestFormat(StreamRequestFormatModel),
    GroupUpdate(GroupUpdateModel),
    ClientGoodbye(ClientGoodbye),
}

impl View for Message {
    type V = MessageModel;

    open spec fn view(&self) -> MessageModel {
        match self {
            Message::ClientHello(p) => MessageModel::ClientHello(p@),
            Message::ServerHello(p) => MessageModel::ServerHello(p@),
            Message::ClientTime(p) => MessageModel::ClientTime(*p),
            Message::ServerTime(p) => MessageModel::ServerTime(*p),
            Message::ClientState(p) => MessageModel::ClientState(*p),
            Message::ServerState(p) => MessageModel::ServerState(p@),
            Message::ServerCommand(p) => MessageModel::ServerCommand(p@),
            Message::ClientCommand(p) => MessageModel::ClientCommand(p@),
            Message::StreamStart(p) => MessageModel::StreamStart(p@),
            Message::StreamEnd(p) => MessageModel::StreamEnd(p@),
            Message::StreamClear(p) => MessageModel::StreamClear(p@),
            Message::StreamRequestFormat(p) => MessageModel::StreamRequestFormat(p@),
            Message::GroupUpdate(p) => MessageModel::GroupUpdate(p@),
            Message::ClientGoodbye(p) => MessageModel::ClientGoodbye(*p),
        }
    }
}

impl MessageModel {
    /// The kind of a message.
    pub open spec fn kind(self) -> MessageKind {
        match self {
            MessageModel::ClientHello(_) => MessageKind::ClientHello,
            MessageModel::ServerHello(_) => MessageKind::ServerHello,
            MessageModel::ClientTime(_) => MessageKind::ClientTime,
            MessageModel::ServerTime(_) => MessageKind::ServerTime,
            MessageModel::ClientState(_) => MessageKind::ClientState,
            MessageModel::ServerState(_) => MessageKind::ServerState,
            MessageModel::ServerCommand(_) => MessageKind::ServerCommand,
            MessageModel::ClientCommand(_) => MessageKind::ClientCommand,
            MessageModel::StreamStart(_) => MessageKind::StreamStart,
            MessageModel::StreamEnd(_) => MessageKind::StreamEnd,
            MessageModel::StreamClear(_) => MessageKind::StreamClear,
            MessageModel::StreamRequestFormat(_) => MessageKind::StreamRequestFormat,
            MessageModel::GroupUpdate(_) => MessageKind::GroupUpdate,
            MessageModel::ClientGoodbye(_) => MessageKind::ClientGoodbye,
        }
    }

    /// The record of the message itself.
    pub open spec fn payload(self) -> JsonModel {
        match self {
            MessageModel::ClientHello(p) => p.encode(),
            MessageModel::ServerHello(p) => p.encode(),
            MessageModel::ClientTime(p) => p.encode(),
            MessageModel::ServerTime(p) => p.encode(),
            MessageModel::ClientState(p) => p.encode(),
            MessageModel::ServerState(p) => p.encode(),
            MessageModel::ServerCommand(p) => p.encode(),
            MessageModel::ClientCommand(p) => p.encode(),
            MessageModel::StreamStart(p) => p.encode(),
            MessageModel::StreamEnd(p) => p.encode(),
            MessageModel::StreamClear(p) => p.encode(),
            MessageModel::StreamRequestFormat(p) => p.encode(),
            MessageModel::GroupUpdate(p) => p.encode(),
            MessageModel::ClientGoodbye(p) => p.encode(),
        }
    }

    /// The record on the wire: the name of the kind under `type`, then the
    /// record of the message under `payload`.
    pub open spec fn encode(self) -> JsonModel {
        JsonModel::Object(
            put(
                put(
                    Seq::<(Seq<char>, JsonModel)>::empty(),
                    "type"@,
                    JsonModel::Str(self.kind().spec_wire()),
                ),
                "payload"@,
                self.payload(),
            ),
        )
    }

    /// The message of a given kind that a record stands for.
    pub open spec fn decode_payload(kind: MessageKind, payload: JsonModel) -> Option<MessageModel> {
        match kind {
            MessageKind::ClientHello => match ClientHelloModel::decode(payload) {
                Some(p) => Some(MessageModel::ClientHello(p)),
                None => None,
            },
            MessageKind::ServerHello => match ServerHelloModel::decode(payload) {
                Some(p) => Some(MessageModel::ServerHello(p)),
                None => None,
            },
            MessageKind::ClientTime => match ClientTime::decode(payload) {
                Some(p) => Some(MessageModel::ClientTime(p)),
                None => None,
            },
            MessageKind::ServerTime => match ServerTime::decode(payload) {
                Some(p) => Some(MessageModel::ServerTime(p)),
                None => None,
            },
            MessageKind::ClientState => match ClientState::decode(payload) {
                Some(p) => Some(MessageModel::ClientState(p)),
                None => None,
            },
            MessageKind::ServerState => match ServerStateModel::decode(payload) {
                Some(p) => Some(MessageModel::ServerState(p)),
                None => None,
            },
            MessageKind::ServerCommand => match ServerCommandModel::decode(payload) {
                Some(p) => Some(MessageModel::ServerCommand(p)),
                None => None,
            },
            MessageKind::ClientCommand => match ClientCommandModel::decode(payload) {
                Some(p) => Some(MessageModel::ClientCommand(p)),
                None => None,
            },
            MessageKind::StreamStart => match StreamStartModel::decode(payload) {
                Some(p) => Some(MessageModel::StreamStart(p)),
                None => None,
            },
            MessageKind::StreamEnd => match StreamEndModel::decode(payload) {
                Some(p) => Some(MessageModel::StreamEnd(p)),
                None => None,
            },
            MessageKind::StreamClear => match StreamClearModel::decode(payload) {
                Some(p) => Some(MessageModel::StreamClear(p)),
                None => None,
            },
            MessageKind::StreamRequestFormat => match StreamRequestFormatModel::decode(payload) {
                Some(p) => Some(MessageModel::StreamRequestFormat(p)),
                None => None,
            },
            MessageKind::GroupUpdate => match GroupUpdateModel::decode(payload) {
                Some(p) => Some(MessageModel::GroupUpdate(p)),
                None => None,
            },
            MessageKind::ClientGoodbye => match ClientGoodbye::decode(payload) {
                Some(p) => Some(MessageModel::ClientGoodbye(p)),
                None => None,
            },
        }
    }

    /// The message that a record on the wire stands for. The record must be
    /// an object with a text under `type` and a record under `payload`, else
    /// it is malformed. A `type` that is none of the fourteen names is an
    /// unknown type. A payload that is no record of its kind is malformed.
    pub open spec fn decode(j: JsonModel) -> Result<MessageModel, Error> {
        match j {
            JsonModel::Object(members) => match lookup(members, "type"@) {
                Some(JsonModel::Str(name)) => match MessageKind::spec_from_wire(name) {
                    Some(kind) => match lookup(members, "payload"@) {
                        Some(payload) => match Self::decode_payload(kind, payload) {
                            Some(message) => Ok(message),
                            None => Err(Error::MalformedMessage),
                        },
                        None => Err(Error::MalformedMessage),
                    },
                    None => Err(Error::UnknownMessageType),
                },
                _ => Err(Error::MalformedMessage),
            },
            _ => Err(Error::MalformedMessage),
        }
    }

    /// Every message is read back from its record on the wire.
    pub proof fn lemma_round_trip(self)
        ensures
            Self::decode(self.encode()) == Ok::<MessageModel, Error>(self),
    {
        broadcast use lemma_lookup_put, lemma_lookup_put_opt, lemma_lookup_empty;

        reveal_strlit("type");
        reveal_strlit("payload");
        assert("type"@.len() != "payload"@.len());
        self.kind().lemma_wire_round_trip();
        match self {
            MessageModel::ClientHello(p) => {
                p.lemma_round_trip();
            },
            MessageModel::ServerHello(p) => {
                p.lemma_round_trip();
            },
            MessageModel::ClientTime(p) => {
                p.lemma_round_trip();
            },
            MessageModel::ServerTime(p) => {
                p.lemma_round_trip();
            },
            MessageModel::ClientState(p) => {
                p.lemma_round_trip();
            },
            MessageModel::ServerState(p) => {
                p.lemma_round_trip();
            },
            MessageModel::ServerCommand(p) => {
                p.lemma_round_trip();
            },
            MessageModel::ClientCommand(p) => {
                p.lemma_round_trip();
            },
            MessageModel::StreamStart(p) => {
                p.lemma_round_trip();
            },
            MessageModel::StreamEnd(p) => {
                p.lemma_round_trip();
            },
            MessageModel::StreamClear(p) => {
                p.lemma_round_trip();
            },
            MessageModel::StreamRequestFormat(p) => {
                p.lemma_round_trip();
            },
            MessageModel::GroupUpdate(p) => {
                p.lemma_round_trip();
            },
            MessageModel::ClientGoodbye(p) => {
                p.lemma_round_trip();
            },
        }
    }

    /// Whether every number of the message is a whole number: none is kept
    /// as text. Only the playback speed that a server reports can be.
    pub open spec fn whole(self) -> bool {
        match self {
            MessageModel::ServerState(p) => p.whole(),
            _ => true,
        }
    }

    /// The record of a message whose numbers are whole holds whole numbers
    /// only.
    pub proof fn lemma_whole(self)
        requires
            self.whole(),
        ensures
            whole_numbers(self.encode()),
    {
        match self {
            MessageModel::ClientHello(p) => {
                p.lemma_whole();
            },
            MessageModel::ServerHello(p) => {
                p.lemma_whole();
            },
            MessageModel::ClientTime(p) => {
                p.lemma_whole();
            },
            MessageModel::ServerTime(p) => {
                p.lemma_whole();
            },
            MessageModel::ClientState(p) => {
                p.lemma_whole();
            },
            MessageModel::ServerState(p) => {
                p.lemma_whole();
            },
            MessageModel::ServerCommand(p) => {
                p.lemma_whole();
            },
            MessageModel::ClientCommand(p) => {
                p.lemma_whole();
            },
            MessageModel::StreamStart(p) => {
                p.lemma_whole();
            },
            MessageModel::StreamEnd(p) => {
                p.lemma_whole();
            },
            MessageModel::StreamClear(p) => {
                p.lemma_whole();
            },
            MessageModel::StreamRequestFormat(p) => {
                p.lemma_whole();
            },
            MessageModel::GroupUpdate(p) => {
                p.lemma_whole();
            },
            MessageModel::ClientGoodbye(p) => {
                p.lemma_whole();
            },
        }
        let m0 = Seq::<(Seq<char>, JsonModel)>::empty();
        let v1 = JsonModel::Str(self.kind().spec_wire());
        lemma_whole_put(m0, "type"@, v1);
        let m1 = put(m0, "type"@, v1);
        lemma_whole_put(m1, "payload"@, self.payload());
    }
}

impl Message {
    /// The kind of a message.
    pub open spec fn spec_kind(self) -> MessageKind {
        self@.kind()
    }

    /// The kind of this message.
    pub fn kind(&self) -> (kind: MessageKind)
        ensures
            kind == self.spec_kind(),
    {
        match self {
            Message::ClientHello(_) => MessageKind::ClientHello,
            Message::ServerHello(_) => MessageKind::ServerHello,
            Message::ClientTime(_) => MessageKind::ClientTime,
            Message::ServerTime(_) => MessageKind::ServerTime,
            Message::ClientState(_) => MessageKind::ClientState,
            Message::ServerState(_) => MessageKind::ServerState,
            Message::ServerCommand(_) => MessageKind::ServerCommand,
            Message::ClientCommand(_) => MessageKind::ClientCommand,
            Message::StreamStart(_) => MessageKind::StreamStart,
            Message::StreamEnd(_) => MessageKind::StreamEnd,
            Message::StreamClear(_) => MessageKind::StreamClear,
            Message::StreamRequestFormat(_) => MessageKind::StreamRequestFormat,
            Message::GroupUpdate(_) => MessageKind::GroupUpdate,
            Message::ClientGoodbye(_) => MessageKind::ClientGoodbye,
        }
    }

    /// The `type` of this message on the wire.
    pub fn wire_type(&self) -> (name: &'static str)
        ensures
            name@ == self.spec_kind().spec_wire(),
            MessageKind::spec_from_wire(name@) == Some(self.spec_kind()),
    {
        let kind = self.kind();
        proof {
            kind.lemma_wire_round_trip();
        }
        kind.as_wire()
    }

    /// This message as its record on the wire.
    pub fn to_json(&self) -> (j: Json)
        ensures
            j@ == self@.encode(),
    {
        let payload = match self {
            Message::ClientHello(p) => p.to_json(),
            Message::ServerHello(p) => p.to_json(),
            Message::ClientTime(p) => p.to_json(),
            Message::ServerTime(p) => p.to_json(),
            Message::ClientState(p) => p.to_json(),
            Message::ServerState(p) => p.to_json(),
            Message::ServerCommand(p) => p.to_json(),
            Message::ClientCommand(p) => p.to_json(),
            Message::StreamStart(p) => p.to_json(),
            Message::StreamEnd(p) => p.to_json(),
            Message::StreamClear(p) => p.to_json(),
            Message::StreamRequestFormat(p) => p.to_json(),
            Message::GroupUpdate(p) => p.to_json(),
            Message::ClientGoodbye(p) => p.to_json(),
        };
        let mut members: Vec<Member> = no_members();
        put_member(&mut members, "type", Json::text(self.kind().as_wire()));
        put_member(&mut members, "payload", payload);
        Json::Object(members)
    }

    /// Reads a message from its record on the wire.
    pub fn from_json(j: &Json) -> (r: Result<Message, Error>)
        ensures
            match (r, MessageModel::decode(j@)) {
                (Ok(message), Ok(model)) => message@ == model,
                (Err(e), Err(expected)) => e == expected,
                _ => false,
            },
    {
        if !j.is_object() {
            return Err(Error::MalformedMessage);
        }
        let kind = match j.get("type") {
            Some(v) => match v.as_str() {
                Some(name) => match MessageKind::from_wire(name) {
                    Some(kind) => kind,
                    None => {
                        return Err(Error::UnknownMessageType);
                    },
                },
                None => {
                    return Err(Error::MalformedMessage);
                },
            },
            None => {
                return Err(Error::MalformedMessage);
            },
        };
        let payload = match j.get("payload") {
            Some(v) => v,
            None => {
                return Err(Error::MalformedMessage);
            },
        };
        match kind {
            MessageKind::ClientHello => match ClientHello::from_json(payload) {
                Some(p) => Ok(Message::ClientHello(p)),
                None => Err(Error::MalformedMessage),
            },
            MessageKind::ServerHello => match ServerHello::from_json(payload) {
                Some(p) => Ok(Message::ServerHello(p)),
                None => Err(Error::MalformedMessage),
            },
            MessageKind::ClientTime => match ClientTime::from_json(payload) {
                Some(p) => Ok(Message::ClientTime(p)),
                None => Err(Error::MalformedMessage),
            },
            MessageKind::ServerTime => match ServerTime::from_json(payload) {
                Some(p) => Ok(Message::ServerTime(p)),
                None => Err(Error::MalformedMessage),
            },
            MessageKind::ClientState => match ClientState::from_json(payload) {
                Some(p) => Ok(Message::ClientState(p)),
                None => Err(Error::MalformedMessage),
            },
            MessageKind::ServerState => match ServerState::from_json(payload) {
                Some(p) => Ok(Message::ServerState(p)),
                None => Err(Error::MalformedMessage),
            },
            MessageKind::ServerCommand => match ServerCommand::from_json(payload) {
                Some(p) => Ok(Message::ServerCommand(p)),
                None => Err(Error::MalformedMessage),
            },
            MessageKind::ClientCommand => match ClientCommand::from_json(payload) {
                Some(p) => Ok(Message::ClientCommand(p)),
                None => Err(Error::MalformedMessage),
            },
            MessageKind::StreamStart => match StreamStart::from_json(payload) {
                Some(p) => Ok(Message::StreamStart(p)),
                None => Err(Error::MalformedMessage),
            },
            MessageKind::StreamEnd => match StreamEnd::from_json(payload) {
                Some(p) => Ok(Message::StreamEnd(p)),
                None => Err(Error::MalformedMessage),
            },
            MessageKind::StreamClear => match StreamClear::from_json(payload) {
                Some(p) => Ok(Message::StreamClear(p)),
                None => Err(Error::MalformedMessage),
            },
            MessageKind::StreamRequestFormat => match StreamRequestFormat::from_json(payload) {
                Some(p) => Ok(Message::StreamRequestFormat(p)),
                None => Err(Error::MalformedMessage),
            },
            MessageKind::GroupUpdate => match GroupUpdate::from_json(payload) {
                Some(p) => Ok(Message::GroupUpdate(p)),
                None => Err(Error::MalformedMessage),
            },
            MessageKind::ClientGoodbye => match ClientGoodbye::from_json(payload) {
                Some(p) => Ok(Message::ClientGoodbye(p)),
                None => Err(Error::MalformedMessage),
            },
        }
    }
}

/// Older name of `PlayerV1Support`.
pub type PlayerSupport = PlayerV1Support;

/// Older name of `ClientState`.
pub type PlayerUpdate = ClientState;

} // verus!
