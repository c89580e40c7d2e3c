use vstd::prelude::*;

use crate::builder::ObjectBuilder;
use crate::value::model_entries;
use crate::value::BuildError;
use crate::value::Value;
use crate::value::ValueModel;

verus! {

broadcast use vstd::string::group_string_axioms;

/// The serialized view of an object with entries `es` under the optional
/// root key `root`: when `include_root` is set and a root key is named, the
/// object stands as the sole entry under that key; otherwise it stands bare.
pub open spec fn serialized_model(
    root: Option<Seq<char>>,
    es: Seq<(Seq<char>, ValueModel)>,
    include_root: bool,
) -> ValueModel {
    match root {
        Some(k) => if include_root {
            ValueModel::Object(seq![(k, ValueModel::Object(es))])
        } else {
            ValueModel::Object(es)
        },
        None => ValueModel::Object(es),
    }
}

/// The capability of a domain type to present itself as a JSON object: an
/// optional root key to wrap the result in, and a way to populate a fresh
/// object scope with the type's fields.
pub trait Serializer {
    /// The text of the root key this type wraps its output in, if any.
    spec fn root_spec(&self) -> Option<Seq<char>>;

    /// The entries, by key text, that `build` leaves in a fresh scope.
    spec fn built(&self) -> Seq<(Seq<char>, ValueModel)>;

    /// The optional root key.
    fn root(&self) -> (r: Option<&str>)
        ensures
            match r {
                Some(s) => self.root_spec() == Some(s@),
                None => self.root_spec() is None,
            },
    ;

    /// Populate the fresh scope `json` with this value's fields: exactly the
    /// entries `built` names, recording no failure.
    fn build(&self, json: ObjectBuilder) -> (r: ObjectBuilder)
        requires
            json.is_empty(),
        ensures
            model_entries(r.entries()) == self.built(),
            !r.failed(),
    ;

    /// Build the object in a fresh scope and finalize it; when
    /// `include_root` is set and this type names a root key, the result is
    /// wrapped as the sole entry under that key, and otherwise stands bare.
    fn serialize(&self, include_root: bool) -> (r: Result<Value, BuildError>)
        ensures
            r is Ok,
            r->Ok_0@ == serialized_model(self.root_spec(), self.built(), include_root),
    {
        let b0 = ObjectBuilder::new();
        let b1 = self.build(b0);
        match b1.unwrap() {
            Ok(v) => {
                proof {
                    assert(v@ == ValueModel::Object(self.built()));
                }
                if include_root {
                    match self.root() {
                        Some(key) => {
                            let k = key.to_string();
                            let ghost gk = k;
                            let mut w: Vec<(String, Value)> = Vec::new();
                            let ghost gv = v;
                            w.push((k, v));
                            let out = Value::Object(w);
                            proof {
                                reveal_with_fuel(crate::value::model_entries, 2);
                                assert(w@ =~= seq![(gk, gv)]);
                                assert(w@.drop_first() =~= Seq::<(String, Value)>::empty());
                                assert(model_entries(w@) =~= seq![(gk@, gv@)]);
                                assert(out@ == ValueModel::Object(seq![(gk@, gv@)]));
                                assert(seq![(gk@, gv@)] =~= seq![
                                    (self.root_spec()->0, ValueModel::Object(self.built())),
                                ]);
                            }
                            Ok(out)
                        },
                        None => Ok(v),
                    }
                } else {
                    Ok(v)
                }
            },
            Err(_) => vstd::pervasive::unreached(),
        }
    }
}

} // verus!
