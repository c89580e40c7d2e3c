use vstd::prelude::*;

use crate::builder::ObjectBuilder;
use crate::serializer::Serializer;
use crate::value::model_entries;
use crate::value::Value;
use crate::value::ValueModel;

verus! {

broadcast use vstd::string::group_string_axioms;

/// The kind of a sample record.
#[derive(Debug, Clone, Copy, PartialEq, Eq, Structural)]
pub enum Category {
    Alpha,
    Beta,
    Gamma,
    Delta,
}

impl Category {
    /// The text of the category's name.
    pub open spec fn name_spec(&self) -> Seq<char> {
        match *self {
            Category::Alpha => "Alpha"@,
            Category::Beta => "Beta"@,
            Category::Gamma => "Gamma"@,
            Category::Delta => "Delta"@,
        }
    }

    /// The category's name.
    pub fn name(&self) -> (r: &'static str)
        ensures
            r@ == self.name_spec(),
    {
        match *self {
            Category::Alpha => "Alpha",
            Category::Beta => "Beta",
            Category::Gamma => "Gamma",
            Category::Delta => "Delta",
        }
    }
}

/// A sample record: a name and a category.
pub struct Fuzz {
    pub name: String,
    pub category: Category,
}

/// Presents a borrowed `Fuzz` record as a JSON object of its name and its
/// category's name, wrapped under the root key `fuzz_object`.
pub struct FuzzSerializer<'a> {
    pub fuzz: &'a Fuzz,
}

impl<'a> Serializer for FuzzSerializer<'a> {
    open spec fn root_spec(&self) -> Option<Seq<char>> {
        Some("fuzz_object"@)
    }

    open spec fn built(&self) -> Seq<(Seq<char>, ValueModel)> {
        seq![
            ("name"@, ValueModel::Text(self.fuzz.name@)),
            ("category"@, ValueModel::Text(self.fuzz.category.name_spec())),
        ]
    }

    fn root(&self) -> (r: Option<&str>) {
        Some("fuzz_object")
    }

    fn build(&self, json: ObjectBuilder) -> (r: ObjectBuilder) {
        let mut json = json;
        json.set("name".to_string(), self.fuzz.name.clone());
        json.set("category".to_string(), self.fuzz.category.name().to_string());
        proof {
            reveal_strlit("name");
            reveal_strlit("category");
            assert("name"@.len() != "category"@.len());
            reveal_with_fuel(crate::entries::upsert, 3);
            reveal_with_fuel(crate::value::model_entries, 3);
            let k1 = "name"@;
            let k2 = "category"@;
            let s1 = json.entries();
            assert(s1.len() == 2 && s1[0].0@ == k1 && s1[1].0@ == k2);
            assert(s1.drop_first() =~= seq![s1[1]]);
            assert(s1.drop_first().drop_first() =~= Seq::<(String, Value)>::empty());
            assert(model_entries(s1) =~= self.built());
        }
        json
    }
}

/// The fixed list of eight sample records, one name for each position and
/// the categories cycling in order.
pub fn generate_fuzz_objects() -> (r: Vec<Fuzz>)
    ensures
        r@.len() == 8,
        r@[0].name@ == "FuzzOne"@ && r@[0].category == Category::Alpha,
        r@[1].name@ == "FuzzTwo"@ && r@[1].category == Category::Beta,
        r@[2].name@ == "FuzzThree"@ && r@[2].category == Category::Gamma,
        r@[3].name@ == "FuzzFour"@ && r@[3].category == Category::Delta,
        r@[4].name@ == "FuzzFive"@ && r@[4].category == Category::Alpha,
        r@[5].name@ == "FuzzSix"@ && r@[5].category == Category::Beta,
        r@[6].name@ == "FuzzSeven"@ && r@[6].category == Category::Gamma,
        r@[7].name@ == "FuzzEight"@ && r@[7].category == Category::Delta,
{
    let mut r: Vec<Fuzz> = Vec::new();
    r.push(Fuzz { name: "FuzzOne".to_string(), category: Category::Alpha });
    r.push(Fuzz { name: "FuzzTwo".to_string(), category: Category::Beta });
    r.push(Fuzz { name: "FuzzThree".to_string(), category: Category::Gamma });
    r.push(Fuzz { name: "FuzzFour".to_string(), category: Category::Delta });
    r.push(Fuzz { name: "FuzzFive".to_string(), category: Category::Alpha });
    r.push(Fuzz { name: "FuzzSix".to_string(), category: Category::Beta });
    r.push(Fuzz { name: "FuzzSeven".to_string(), category: Category::Gamma });
    r.push(Fuzz { name: "FuzzEight".to_string(), category: Category::Delta });
    r
}

} // verus!
