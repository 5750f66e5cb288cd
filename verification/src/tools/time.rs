//! The tool that tells the time.

use vstd::prelude::*;
use crate::json::{Json, JsonView};
use crate::message::{ToolSpec, ToolSpecView};
use crate::tool::{RatedTool, ToolRisk};

verus! {

/// A request for the time; there is nothing to say in it.
#[derive(Debug)]
pub struct CurrentTime {}

impl Default for CurrentTime {
    /// The request.
    fn default() -> (r: CurrentTime)
        ensures
            r == (CurrentTime {  }),
    {
        CurrentTime {  }
    }
}

/// How the tool is described to a model.
pub open spec fn current_time_spec(schema: JsonView) -> ToolSpecView {
    ToolSpecView {
        name: "current_time"@,
        description: "Return the current local time as an ISO 8601 string"@,
        parameters_schema: schema,
    }
}

impl CurrentTime {
    /// The tool, with the schema of its arguments.
    pub fn tool(schema: Json) -> (r: RatedTool)
        ensures
            r.spec@ == current_time_spec(schema@),
            r.risk == ToolRisk::ReadOnly,
    {
        RatedTool {
            spec: ToolSpec {
                name: "current_time".to_owned(),
                description: "Return the current local time as an ISO 8601 string".to_owned(),
                parameters_schema: schema,
            },
            risk: ToolRisk::ReadOnly,
        }
    }
}

} // verus!
