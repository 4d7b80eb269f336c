//! Tool definitions: a tool as a response describes it, and a tool as a
//! request gives it.
//!
//! A tool reads by its `type`. Each known type reads as its struct does
//! (see [`crate::fields`]); a tool of a type not known here, or one whose
//! struct does not read, is kept whole as an unknown tool, so reading a
//! tool never fails. A tool of a request reads by its `type` tag too, but
//! there an unknown type, or a struct that does not read, fails.
use vstd::prelude::*;
use crate::fields::{
    bool_member, field_at, field_of, i64_member, o_view, opt_any, opt_any_member,
    opt_bool, opt_i64, opt_i64_member, opt_pairs_view, opt_string, opt_string_map,
    opt_string_map_member, opt_strings, opt_strings_member, opt_vec_view, req_bool, req_i64,
    req_string, req_strings, req_value, strings_member, struct_form, struct_form_ok,
    value_member, vec_view,
};
use crate::items::{opt_string_member, string_member};
use crate::json::{copy_json, str_eq};
use crate::tool_parts::{
    CodeInterpreterContainer,
    CodeInterpreterContainerV,
    CustomToolFormat,
    CustomToolFormatV,
    Environment,
    EnvironmentV,
    FileSearchFilters,
    FileSearchFiltersV,
    ImageMask,
    ImageMaskV,
    McpAllowedTools,
    McpAllowedToolsV,
    McpRequireApproval,
    McpRequireApprovalV,
    NamespaceToolItem,
    NamespaceToolItemV,
    RankingOptions,
    RankingOptionsV,
    UserLocation,
    UserLocationV,
    code_interpreter_container_at,
    code_interpreter_container_member,
    members,
    namespace_tool_item_list_at,
    namespace_tool_item_list_member,
    opt_code_interpreter_container_at,
    opt_code_interpreter_container_member,
    opt_custom_tool_format_at,
    opt_custom_tool_format_member,
    opt_environment_at,
    opt_environment_member,
    opt_file_search_filters_at,
    opt_file_search_filters_member,
    opt_image_mask_at,
    opt_image_mask_member,
    opt_mcp_allowed_tools_at,
    opt_mcp_allowed_tools_member,
    opt_mcp_require_approval_at,
    opt_mcp_require_approval_member,
    opt_namespace_tool_item_list_at,
    opt_namespace_tool_item_list_member,
    opt_ranking_options_at,
    opt_ranking_options_member,
    opt_user_location_at,
    opt_user_location_member,
    split_tag,
    tag_and_body,
    tag_is,
    tag_matches,
};
use crate::value::{Json, JsonV};
use crate::ws::opt_bool_member;

verus! {

// ─── The tools ──────────────────────────────────────────────────────────

/// A function the model may call.
#[derive(Debug)]
pub struct FunctionTool {
    pub name: String,
    pub description: Option<String>,
    pub parameters: Json,
    pub strict: bool,
    pub defer_loading: Option<bool>,
}

pub ghost struct FunctionToolV {
    pub name: Seq<char>,
    pub description: Option<Seq<char>>,
    pub parameters: JsonV,
    pub strict: bool,
    pub defer_loading: Option<bool>,
}

impl View for FunctionTool {
    type V = FunctionToolV;

    open spec fn view(&self) -> FunctionToolV {
        FunctionToolV {
            name: self.name@,
            description: o_view(self.description),
            parameters: self.parameters@,
            strict: self.strict,
            defer_loading: self.defer_loading,
        }
    }
}

/// How `FunctionTool` reads from `v`; `None` where it does not.
pub open spec fn function_tool_of(v: JsonV) -> Option<FunctionToolV> {
    let name = string_member(field_at(v, "name"@, 0));
    let description = opt_string_member(field_at(v, "description"@, 1));
    let parameters = value_member(field_at(v, "parameters"@, 2));
    let strict = bool_member(field_at(v, "strict"@, 3));
    let defer_loading = opt_bool_member(field_at(v, "defer_loading"@, 4));
    if struct_form(v, 5, 5)
        && name is Some
        && description is Some
        && parameters is Some
        && strict is Some
        && defer_loading is Some {
        Some(
            FunctionToolV {
                name: name->0,
                description: description->0,
                parameters: parameters->0,
                strict: strict->0,
                defer_loading: defer_loading->0,
            },
        )
    } else {
        None
    }
}

impl FunctionTool {
    /// Reads a `FunctionTool` (see [`function_tool_of`]).
    pub fn from_json(v: &Json) -> (r: Option<FunctionTool>)
        ensures
            o_view(r) == function_tool_of(v@),
    {
        if !struct_form_ok(v, 5, 5) {
            return None;
        }
        let name = match req_string(field_of(v, "name", 0)) {
            Some(x) => x,
            None => {
                return None;
            },
        };
        let description = match opt_string(field_of(v, "description", 1)) {
            Some(x) => x,
            None => {
                return None;
            },
        };
        let parameters = match req_value(field_of(v, "parameters", 2)) {
            Some(x) => x,
            None => {
                return None;
            },
        };
        let strict = match req_bool(field_of(v, "strict", 3)) {
            Some(x) => x,
            None => {
                return None;
            },
        };
        let defer_loading = match opt_bool(field_of(v, "defer_loading", 4)) {
            Some(x) => x,
            None => {
                return None;
            },
        };
        Some(FunctionTool { name, description, parameters, strict, defer_loading })
    }
}

/// Search in uploaded files.
#[derive(Debug)]
pub struct FileSearchTool {
    pub vector_store_ids: Vec<String>,
    pub max_num_results: Option<i64>,
    pub filters: Option<FileSearchFilters>,
    pub ranking_options: Option<RankingOptions>,
}

pub ghost struct FileSearchToolV {
    pub vector_store_ids: Seq<Seq<char>>,
    pub max_num_results: Option<i64>,
    pub filters: Option<FileSearchFiltersV>,
    pub ranking_options: Option<RankingOptionsV>,
}

impl View for FileSearchTool {
    type V = FileSearchToolV;

    open spec fn view(&self) -> FileSearchToolV {
        FileSearchToolV {
            vector_store_ids: vec_view(self.vector_store_ids),
            max_num_results: self.max_num_results,
            filters: o_view(self.filters),
            ranking_options: o_view(self.ranking_options),
        }
    }
}

/// How `FileSearchTool` reads from `v`; `None` where it does not.
pub open spec fn file_search_tool_of(v: JsonV) -> Option<FileSearchToolV> {
    let vector_store_ids = strings_member(field_at(v, "vector_store_ids"@, 0));
    let max_num_results = opt_i64_member(field_at(v, "max_num_results"@, 1));
    let filters = opt_file_search_filters_member(field_at(v, "filters"@, 2));
    let ranking_options = opt_ranking_options_member(field_at(v, "ranking_options"@, 3));
    if struct_form(v, 4, 4)
        && vector_store_ids is Some
        && max_num_results is Some
        && filters is Some
        && ranking_options is Some {
        Some(
            FileSearchToolV {
                vector_store_ids: vector_store_ids->0,
                max_num_results: max_num_results->0,
                filters: filters->0,
                ranking_options: ranking_options->0,
            },
        )
    } else {
        None
    }
}

impl FileSearchTool {
    /// Reads a `FileSearchTool` (see [`file_search_tool_of`]).
    pub fn from_json(v: &Json) -> (r: Option<FileSearchTool>)
        ensures
            o_view(r) == file_search_tool_of(v@),
    {
        if !struct_form_ok(v, 4, 4) {
            return None;
        }
        let vector_store_ids = match req_strings(field_of(v, "vector_store_ids", 0)) {
            Some(x) => x,
            None => {
                return None;
            },
        };
        let max_num_results = match opt_i64(field_of(v, "max_num_results", 1)) {
            Some(x) => x,
            None => {
                return None;
            },
        };
        let filters = match opt_file_search_filters_at(field_of(v, "filters", 2)) {
            Some(x) => x,
            None => {
                return None;
            },
        };
        let ranking_options = match opt_ranking_options_at(field_of(v, "ranking_options", 3)) {
            Some(x) => x,
            None => {
                return None;
            },
        };
        Some(FileSearchTool { vector_store_ids, max_num_results, filters, ranking_options })
    }
}

/// Search the web.
#[derive(Debug)]
pub struct WebSearchTool {
    pub allowed_domains: Option<Vec<String>>,
    pub search_context_size: Option<String>,
    pub user_location: Option<UserLocation>,
    pub filters: Option<Json>,
}

pub ghost struct WebSearchToolV {
    pub allowed_domains: Option<Seq<Seq<char>>>,
    pub search_context_size: Option<Seq<char>>,
    pub user_location: Option<UserLocationV>,
    pub filters: Option<JsonV>,
}

impl View for WebSearchTool {
    type V = WebSearchToolV;

    open spec fn view(&self) -> WebSearchToolV {
        WebSearchToolV {
            allowed_domains: opt_vec_view(self.allowed_domains),
            search_context_size: o_view(self.search_context_size),
            user_location: o_view(self.user_location),
            filters: o_view(self.filters),
        }
    }
}

/// How `WebSearchTool` reads from `v`; `None` where it does not.
pub open spec fn web_search_tool_of(v: JsonV) -> Option<WebSearchToolV> {
    let allowed_domains = opt_strings_member(field_at(v, "allowed_domains"@, 0));
    let search_context_size = opt_string_member(field_at(v, "search_context_size"@, 1));
    let user_location = opt_user_location_member(field_at(v, "user_location"@, 2));
    let filters = opt_any_member(field_at(v, "filters"@, 3));
    if struct_form(v, 0, 4)
        && allowed_domains is Some
        && search_context_size is Some
        && user_location is Some
        && filters is Some {
        Some(
            WebSearchToolV {
                allowed_domains: allowed_domains->0,
                search_context_size: search_context_size->0,
                user_location: user_location->0,
                filters: filters->0,
            },
        )
    } else {
        None
    }
}

impl WebSearchTool {
    /// Reads a `WebSearchTool` (see [`web_search_tool_of`]).
    pub fn from_json(v: &Json) -> (r: Option<WebSearchTool>)
        ensures
            o_view(r) == web_search_tool_of(v@),
    {
        if !struct_form_ok(v, 0, 4) {
            return None;
        }
        let allowed_domains = match opt_strings(field_of(v, "allowed_domains", 0)) {
            Some(x) => x,
            None => {
                return None;
            },
        };
        let search_context_size = match opt_string(field_of(v, "search_context_size", 1)) {
            Some(x) => x,
            None => {
                return None;
            },
        };
        let user_location = match opt_user_location_at(field_of(v, "user_location", 2)) {
            Some(x) => x,
            None => {
                return None;
            },
        };
        let filters = match opt_any(field_of(v, "filters", 3)) {
            Some(x) => x,
            None => {
                return None;
            },
        };
        Some(WebSearchTool { allowed_domains, search_context_size, user_location, filters })
    }
}

/// Search the web, showing the results in the response.
#[derive(Debug)]
pub struct WebSearchPreviewTool {
    pub search_context_size: Option<String>,
    pub user_location: Option<UserLocation>,
    pub search_content_types: Option<Vec<String>>,
}

pub ghost struct WebSearchPreviewToolV {
    pub search_context_size: Option<Seq<char>>,
    pub user_location: Option<UserLocationV>,
    pub search_content_types: Option<Seq<Seq<char>>>,
}

impl View for WebSearchPreviewTool {
    type V = WebSearchPreviewToolV;

    open spec fn view(&self) -> WebSearchPreviewToolV {
        WebSearchPreviewToolV {
            search_context_size: o_view(self.search_context_size),
            user_location: o_view(self.user_location),
            search_content_types: opt_vec_view(self.search_content_types),
        }
    }
}

/// How `WebSearchPreviewTool` reads from `v`; `None` where it does not.
pub open spec fn web_search_preview_tool_of(v: JsonV) -> Option<WebSearchPreviewToolV> {
    let search_context_size = opt_string_member(field_at(v, "search_context_size"@, 0));
    let user_location = opt_user_location_member(field_at(v, "user_location"@, 1));
    let search_content_types = opt_strings_member(field_at(v, "search_content_types"@, 2));
    if struct_form(v, 3, 3)
        && search_context_size is Some
        && user_location is Some
        && search_content_types is Some {
        Some(
            WebSearchPreviewToolV {
                search_context_size: search_context_size->0,
                user_location: user_location->0,
                search_content_types: search_content_types->0,
            },
        )
    } else {
        None
    }
}

impl WebSearchPreviewTool {
    /// Reads a `WebSearchPreviewTool` (see [`web_search_preview_tool_of`]).
    pub fn from_json(v: &Json) -> (r: Option<WebSearchPreviewTool>)
        ensures
            o_view(r) == web_search_preview_tool_of(v@),
    {
        if !struct_form_ok(v, 3, 3) {
            return None;
        }
        let search_context_size = match opt_string(field_of(v, "search_context_size", 0)) {
            Some(x) => x,
            None => {
                return None;
            },
        };
        let user_location = match opt_user_location_at(field_of(v, "user_location", 1)) {
            Some(x) => x,
            None => {
                return None;
            },
        };
        let search_content_types = match opt_strings(field_of(v, "search_content_types", 2)) {
            Some(x) => x,
            None => {
                return None;
            },
        };
        Some(WebSearchPreviewTool { search_context_size, user_location, search_content_types })
    }
}

/// Control a virtual computer; the tool has no fields.
#[derive(Debug)]
pub struct ComputerTool {}

/// Control a virtual desktop of the given size and operating system.
#[derive(Debug)]
pub struct ComputerUsePreviewTool {
    pub display_width: i64,
    pub display_height: i64,
    pub environment: String,
}

pub ghost struct ComputerUsePreviewToolV {
    pub display_width: i64,
    pub display_height: i64,
    pub environment: Seq<char>,
}

impl View for ComputerUsePreviewTool {
    type V = ComputerUsePreviewToolV;

    open spec fn view(&self) -> ComputerUsePreviewToolV {
        ComputerUsePreviewToolV {
            display_width: self.display_width,
            display_height: self.display_height,
            environment: self.environment@,
        }
    }
}

/// How `ComputerUsePreviewTool` reads from `v`; `None` where it does not.
pub open spec fn computer_use_preview_tool_of(v: JsonV) -> Option<ComputerUsePreviewToolV> {
    let display_width = i64_member(field_at(v, "display_width"@, 0));
    let display_height = i64_member(field_at(v, "display_height"@, 1));
    let environment = string_member(field_at(v, "environment"@, 2));
    if struct_form(v, 3, 3)
        && display_width is Some
        && display_height is Some
        && environment is Some {
        Some(
            ComputerUsePreviewToolV {
                display_width: display_width->0,
                display_height: display_height->0,
                environment: environment->0,
            },
        )
    } else {
        None
    }
}

impl ComputerUsePreviewTool {
    /// Reads a `ComputerUsePreviewTool` (see [`computer_use_preview_tool_of`]).
    pub fn from_json(v: &Json) -> (r: Option<ComputerUsePreviewTool>)
        ensures
            o_view(r) == computer_use_preview_tool_of(v@),
    {
        if !struct_form_ok(v, 3, 3) {
            return None;
        }
        let display_width = match req_i64(field_of(v, "display_width", 0)) {
            Some(x) => x,
            None => {
                return None;
            },
        };
        let display_height = match req_i64(field_of(v, "display_height", 1)) {
            Some(x) => x,
            None => {
                return None;
            },
        };
        let environment = match req_string(field_of(v, "environment", 2)) {
            Some(x) => x,
            None => {
                return None;
            },
        };
        Some(ComputerUsePreviewTool { display_width, display_height, environment })
    }
}

/// Run code in a container.
#[derive(Debug)]
pub struct CodeInterpreterTool {
    pub container: CodeInterpreterContainer,
}

pub ghost struct CodeInterpreterToolV {
    pub container: CodeInterpreterContainerV,
}

impl View for CodeInterpreterTool {
    type V = CodeInterpreterToolV;

    open spec fn view(&self) -> CodeInterpreterToolV {
        CodeInterpreterToolV { container: self.container@ }
    }
}

/// How `CodeInterpreterTool` reads from `v`; `None` where it does not.
pub open spec fn code_interpreter_tool_of(v: JsonV) -> Option<CodeInterpreterToolV> {
    let container = code_interpreter_container_member(field_at(v, "container"@, 0));
    if struct_form(v, 1, 1)
        && container is Some {
        Some(CodeInterpreterToolV { container: container->0 })
    } else {
        None
    }
}

impl CodeInterpreterTool {
    /// Reads a `CodeInterpreterTool` (see [`code_interpreter_tool_of`]).
    pub fn from_json(v: &Json) -> (r: Option<CodeInterpreterTool>)
        ensures
            o_view(r) == code_interpreter_tool_of(v@),
    {
        if !struct_form_ok(v, 1, 1) {
            return None;
        }
        let container = match code_interpreter_container_at(field_of(v, "container", 0)) {
            Some(x) => x,
            None => {
                return None;
            },
        };
        Some(CodeInterpreterTool { container })
    }
}

/// Generate images.
#[derive(Debug)]
pub struct ImageGenerationTool {
    pub action: Option<String>,
    pub background: Option<String>,
    pub input_fidelity: Option<String>,
    pub input_image_mask: Option<ImageMask>,
    pub model: Option<String>,
    pub moderation: Option<String>,
    pub output_compression: Option<i64>,
    pub output_format: Option<String>,
    pub partial_images: Option<i64>,
    pub quality: Option<String>,
    pub size: Option<String>,
}

pub ghost struct ImageGenerationToolV {
    pub action: Option<Seq<char>>,
    pub background: Option<Seq<char>>,
    pub input_fidelity: Option<Seq<char>>,
    pub input_image_mask: Option<ImageMaskV>,
    pub model: Option<Seq<char>>,
    pub moderation: Option<Seq<char>>,
    pub output_compression: Option<i64>,
    pub output_format: Option<Seq<char>>,
    pub partial_images: Option<i64>,
    pub quality: Option<Seq<char>>,
    pub size: Option<Seq<char>>,
}

impl View for ImageGenerationTool {
    type V = ImageGenerationToolV;

    open spec fn view(&self) -> ImageGenerationToolV {
        ImageGenerationToolV {
            action: o_view(self.action),
            background: o_view(self.background),
            input_fidelity: o_view(self.input_fidelity),
            input_image_mask: o_view(self.input_image_mask),
            model: o_view(self.model),
            moderation: o_view(self.moderation),
            output_compression: self.output_compression,
            output_format: o_view(self.output_format),
            partial_images: self.partial_images,
            quality: o_view(self.quality),
            size: o_view(self.size),
        }
    }
}

/// How `ImageGenerationTool` reads from `v`; `None` where it does not.
pub open spec fn image_generation_tool_of(v: JsonV) -> Option<ImageGenerationToolV> {
    let action = opt_string_member(field_at(v, "action"@, 0));
    let background = opt_string_member(field_at(v, "background"@, 1));
    let input_fidelity = opt_string_member(field_at(v, "input_fidelity"@, 2));
    let input_image_mask = opt_image_mask_member(field_at(v, "input_image_mask"@, 3));
    let model = opt_string_member(field_at(v, "model"@, 4));
    let moderation = opt_string_member(field_at(v, "moderation"@, 5));
    let output_compression = opt_i64_member(field_at(v, "output_compression"@, 6));
    let output_format = opt_string_member(field_at(v, "output_format"@, 7));
    let partial_images = opt_i64_member(field_at(v, "partial_images"@, 8));
    let quality = opt_string_member(field_at(v, "quality"@, 9));
    let size = opt_string_member(field_at(v, "size"@, 10));
    if struct_form(v, 0, 11)
        && action is Some
        && background is Some
        && input_fidelity is Some
        && input_image_mask is Some
        && model is Some
        && moderation is Some
        && output_compression is Some
        && output_format is Some
        && partial_images is Some
        && quality is Some
        && size is Some {
        Some(
            ImageGenerationToolV {
                action: action->0,
                background: background->0,
                input_fidelity: input_fidelity->0,
                input_image_mask: input_image_mask->0,
                model: model->0,
                moderation: moderation->0,
                output_compression: output_compression->0,
                output_format: output_format->0,
                partial_images: partial_images->0,
                quality: quality->0,
                size: size->0,
            },
        )
    } else {
        None
    }
}

impl ImageGenerationTool {
    /// Reads a `ImageGenerationTool` (see [`image_generation_tool_of`]).
    pub fn from_json(v: &Json) -> (r: Option<ImageGenerationTool>)
        ensures
            o_view(r) == image_generation_tool_of(v@),
    {
        if !struct_form_ok(v, 0, 11) {
            return None;
        }
        let action = match opt_string(field_of(v, "action", 0)) {
            Some(x) => x,
            None => {
                return None;
            },
        };
        let background = match opt_string(field_of(v, "background", 1)) {
            Some(x) => x,
            None => {
                return None;
            },
        };
        let input_fidelity = match opt_string(field_of(v, "input_fidelity", 2)) {
            Some(x) => x,
            None => {
                return None;
            },
        };
        let input_image_mask = match opt_image_mask_at(field_of(v, "input_image_mask", 3)) {
            Some(x) => x,
            None => {
                return None;
            },
        };
        let model = match opt_string(field_of(v, "model", 4)) {
            Some(x) => x,
            None => {
                return None;
            },
        };
        let moderation = match opt_string(field_of(v, "moderation", 5)) {
            Some(x) => x,
            None => {
                return None;
            },
        };
        let output_compression = match opt_i64(field_of(v, "output_compression", 6)) {
            Some(x) => x,
            None => {
                return None;
            },
        };
        let output_format = match opt_string(field_of(v, "output_format", 7)) {
            Some(x) => x,
            None => {
                return None;
            },
        };
        let partial_images = match opt_i64(field_of(v, "partial_images", 8)) {
            Some(x) => x,
            None => {
                return None;
            },
        };
        let quality = match opt_string(field_of(v, "quality", 9)) {
            Some(x) => x,
            None => {
                return None;
            },
        };
        let size = match opt_string(field_of(v, "size", 10)) {
            Some(x) => x,
            None => {
                return None;
            },
        };
        Some(
            ImageGenerationTool {
                action,
                background,
                input_fidelity,
                input_image_mask,
                model,
                moderation,
                output_compression,
                output_format,
                partial_images,
                quality,
                size,
            },
        )
    }
}

/// Tools of a remote MCP server. The headers keep the order of their members.
#[derive(Debug)]
pub struct McpTool {
    pub server_label: String,
    pub server_url: Option<String>,
    pub connector_id: Option<String>,
    pub authorization: Option<String>,
    pub headers: Option<Vec<(String, String)>>,
    pub server_description: Option<String>,
    pub defer_loading: Option<bool>,
    pub allowed_tools: Option<McpAllowedTools>,
    pub require_approval: Option<McpRequireApproval>,
}

pub ghost struct McpToolV {
    pub server_label: Seq<char>,
    pub server_url: Option<Seq<char>>,
    pub connector_id: Option<Seq<char>>,
    pub authorization: Option<Seq<char>>,
    pub headers: Option<Seq<(Seq<char>, Seq<char>)>>,
    pub server_description: Option<Seq<char>>,
    pub defer_loading: Option<bool>,
    pub allowed_tools: Option<McpAllowedToolsV>,
    pub require_approval: Option<McpRequireApprovalV>,
}

impl View for McpTool {
    type V = McpToolV;

    open spec fn view(&self) -> McpToolV {
        McpToolV {
            server_label: self.server_label@,
            server_url: o_view(self.server_url),
            connector_id: o_view(self.connector_id),
            authorization: o_view(self.authorization),
            headers: opt_pairs_view(self.headers),
            server_description: o_view(self.server_description),
            defer_loading: self.defer_loading,
            allowed_tools: o_view(self.allowed_tools),
            require_approval: o_view(self.require_approval),
        }
    }
}

/// How `McpTool` reads from `v`; `None` where it does not.
pub open spec fn mcp_tool_of(v: JsonV) -> Option<McpToolV> {
    let server_label = string_member(field_at(v, "server_label"@, 0));
    let server_url = opt_string_member(field_at(v, "server_url"@, 1));
    let connector_id = opt_string_member(field_at(v, "connector_id"@, 2));
    let authorization = opt_string_member(field_at(v, "authorization"@, 3));
    let headers = opt_string_map_member(field_at(v, "headers"@, 4));
    let server_description = opt_string_member(field_at(v, "server_description"@, 5));
    let defer_loading = opt_bool_member(field_at(v, "defer_loading"@, 6));
    let allowed_tools = opt_mcp_allowed_tools_member(field_at(v, "allowed_tools"@, 7));
    let require_approval = opt_mcp_require_approval_member(field_at(v, "require_approval"@, 8));
    if struct_form(v, 9, 9)
        && server_label is Some
        && server_url is Some
        && connector_id is Some
        && authorization is Some
        && headers is Some
        && server_description is Some
        && defer_loading is Some
        && allowed_tools is Some
        && require_approval is Some {
        Some(
            McpToolV {
                server_label: server_label->0,
                server_url: server_url->0,
                connector_id: connector_id->0,
                authorization: authorization->0,
                headers: headers->0,
                server_description: server_description->0,
                defer_loading: defer_loading->0,
                allowed_tools: allowed_tools->0,
                require_approval: require_approval->0,
            },
        )
    } else {
        None
    }
}

impl McpTool {
    /// Reads a `McpTool` (see [`mcp_tool_of`]).
    pub fn from_json(v: &Json) -> (r: Option<McpTool>)
        ensures
            o_view(r) == mcp_tool_of(v@),
    {
        if !struct_form_ok(v, 9, 9) {
            return None;
        }
        let server_label = match req_string(field_of(v, "server_label", 0)) {
            Some(x) => x,
            None => {
                return None;
            },
        };
        let server_url = match opt_string(field_of(v, "server_url", 1)) {
            Some(x) => x,
            None => {
                return None;
            },
        };
        let connector_id = match opt_string(field_of(v, "connector_id", 2)) {
            Some(x) => x,
            None => {
                return None;
            },
        };
        let authorization = match opt_string(field_of(v, "authorization", 3)) {
            Some(x) => x,
            None => {
                return None;
            },
        };
        let headers = match opt_string_map(field_of(v, "headers", 4)) {
            Some(x) => x,
            None => {
                return None;
            },
        };
        let server_description = match opt_string(field_of(v, "server_description", 5)) {
            Some(x) => x,
            None => {
                return None;
            },
        };
        let defer_loading = match opt_bool(field_of(v, "defer_loading", 6)) {
            Some(x) => x,
            None => {
                return None;
            },
        };
        let allowed_tools = match opt_mcp_allowed_tools_at(field_of(v, "allowed_tools", 7)) {
            Some(x) => x,
            None => {
                return None;
            },
        };
        let require_approval = match opt_mcp_require_approval_at(field_of(v, "require_approval", 8)) {
            Some(x) => x,
            None => {
                return None;
            },
        };
        Some(
            McpTool {
                server_label,
                server_url,
                connector_id,
                authorization,
                headers,
                server_description,
                defer_loading,
                allowed_tools,
                require_approval,
            },
        )
    }
}

/// Run shell commands on the local machine; the tool has no fields.
#[derive(Debug)]
pub struct LocalShellTool {}

/// Run shell commands in an environment.
#[derive(Debug)]
pub struct ShellTool {
    pub environment: Option<Environment>,
}

pub ghost struct ShellToolV {
    pub environment: Option<EnvironmentV>,
}

impl View for ShellTool {
    type V = ShellToolV;

    open spec fn view(&self) -> ShellToolV {
        ShellToolV { environment: o_view(self.environment) }
    }
}

/// How `ShellTool` reads from `v`; `None` where it does not.
pub open spec fn shell_tool_of(v: JsonV) -> Option<ShellToolV> {
    let environment = opt_environment_member(field_at(v, "environment"@, 0), false);
    if struct_form(v, 0, 1)
        && environment is Some {
        Some(ShellToolV { environment: environment->0 })
    } else {
        None
    }
}

impl ShellTool {
    /// Reads a `ShellTool` (see [`shell_tool_of`]).
    pub fn from_json(v: &Json) -> (r: Option<ShellTool>)
        ensures
            o_view(r) == shell_tool_of(v@),
    {
        if !struct_form_ok(v, 0, 1) {
            return None;
        }
        let environment = match opt_environment_at(field_of(v, "environment", 0), false) {
            Some(x) => x,
            None => {
                return None;
            },
        };
        Some(ShellTool { environment })
    }
}

/// A tool whose input has a given format.
#[derive(Debug)]
pub struct CustomTool {
    pub name: String,
    pub description: Option<String>,
    pub defer_loading: Option<bool>,
    pub format: Option<CustomToolFormat>,
}

pub ghost struct CustomToolV {
    pub name: Seq<char>,
    pub description: Option<Seq<char>>,
    pub defer_loading: Option<bool>,
    pub format: Option<CustomToolFormatV>,
}

impl View for CustomTool {
    type V = CustomToolV;

    open spec fn view(&self) -> CustomToolV {
        CustomToolV {
            name: self.name@,
            description: o_view(self.description),
            defer_loading: self.defer_loading,
            format: o_view(self.format),
        }
    }
}

/// How `CustomTool` reads from `v`; `None` where it does not.
pub open spec fn custom_tool_of(v: JsonV) -> Option<CustomToolV> {
    let name = string_member(field_at(v, "name"@, 0));
    let description = opt_string_member(field_at(v, "description"@, 1));
    let defer_loading = opt_bool_member(field_at(v, "defer_loading"@, 2));
    let format = opt_custom_tool_format_member(field_at(v, "format"@, 3));
    if struct_form(v, 4, 4)
        && name is Some
        && description is Some
        && defer_loading is Some
        && format is Some {
        Some(
            CustomToolV {
                name: name->0,
                description: description->0,
                defer_loading: defer_loading->0,
                format: format->0,
            },
        )
    } else {
        None
    }
}

impl CustomTool {
    /// Reads a `CustomTool` (see [`custom_tool_of`]).
    pub fn from_json(v: &Json) -> (r: Option<CustomTool>)
        ensures
            o_view(r) == custom_tool_of(v@),
    {
        if !struct_form_ok(v, 4, 4) {
            return None;
        }
        let name = match req_string(field_of(v, "name", 0)) {
            Some(x) => x,
            None => {
                return None;
            },
        };
        let description = match opt_string(field_of(v, "description", 1)) {
            Some(x) => x,
            None => {
                return None;
            },
        };
        let defer_loading = match opt_bool(field_of(v, "defer_loading", 2)) {
            Some(x) => x,
            None => {
                return None;
            },
        };
        let format = match opt_custom_tool_format_at(field_of(v, "format", 3)) {
            Some(x) => x,
            None => {
                return None;
            },
        };
        Some(CustomTool { name, description, defer_loading, format })
    }
}

/// Tools grouped under a name.
#[derive(Debug)]
pub struct NamespaceTool {
    pub name: String,
    pub description: Option<String>,
    pub tools: Vec<NamespaceToolItem>,
}

pub ghost struct NamespaceToolV {
    pub name: Seq<char>,
    pub description: Option<Seq<char>>,
    pub tools: Seq<NamespaceToolItemV>,
}

impl View for NamespaceTool {
    type V = NamespaceToolV;

    open spec fn view(&self) -> NamespaceToolV {
        NamespaceToolV {
            name: self.name@,
            description: o_view(self.description),
            tools: vec_view(self.tools),
        }
    }
}

/// How `NamespaceTool` reads from `v`; `None` where it does not.
pub open spec fn namespace_tool_of(v: JsonV) -> Option<NamespaceToolV> {
    let name = string_member(field_at(v, "name"@, 0));
    let description = opt_string_member(field_at(v, "description"@, 1));
    let tools = namespace_tool_item_list_member(field_at(v, "tools"@, 2), false);
    if struct_form(v, 3, 3)
        && name is Some
        && description is Some
        && tools is Some {
        Some(NamespaceToolV { name: name->0, description: description->0, tools: tools->0 })
    } else {
        None
    }
}

impl NamespaceTool {
    /// Reads a `NamespaceTool` (see [`namespace_tool_of`]).
    pub fn from_json(v: &Json) -> (r: Option<NamespaceTool>)
        ensures
            o_view(r) == namespace_tool_of(v@),
    {
        if !struct_form_ok(v, 3, 3) {
            return None;
        }
        let name = match req_string(field_of(v, "name", 0)) {
            Some(x) => x,
            None => {
                return None;
            },
        };
        let description = match opt_string(field_of(v, "description", 1)) {
            Some(x) => x,
            None => {
                return None;
            },
        };
        let tools = match namespace_tool_item_list_at(field_of(v, "tools", 2), false) {
            Some(x) => x,
            None => {
                return None;
            },
        };
        Some(NamespaceTool { name, description, tools })
    }
}

/// How tools loaded on use are searched.
#[derive(Debug)]
pub struct SearchTool {
    pub execution: Option<String>,
    pub description: Option<String>,
    pub parameters: Option<Json>,
}

pub ghost struct SearchToolV {
    pub execution: Option<Seq<char>>,
    pub description: Option<Seq<char>>,
    pub parameters: Option<JsonV>,
}

impl View for SearchTool {
    type V = SearchToolV;

    open spec fn view(&self) -> SearchToolV {
        SearchToolV {
            execution: o_view(self.execution),
            description: o_view(self.description),
            parameters: o_view(self.parameters),
        }
    }
}

/// How `SearchTool` reads from `v`; `None` where it does not.
pub open spec fn search_tool_of(v: JsonV) -> Option<SearchToolV> {
    let execution = opt_string_member(field_at(v, "execution"@, 0));
    let description = opt_string_member(field_at(v, "description"@, 1));
    let parameters = opt_any_member(field_at(v, "parameters"@, 2));
    if struct_form(v, 3, 3)
        && execution is Some
        && description is Some
        && parameters is Some {
        Some(
            SearchToolV {
                execution: execution->0,
                description: description->0,
                parameters: parameters->0,
            },
        )
    } else {
        None
    }
}

impl SearchTool {
    /// Reads a `SearchTool` (see [`search_tool_of`]).
    pub fn from_json(v: &Json) -> (r: Option<SearchTool>)
        ensures
            o_view(r) == search_tool_of(v@),
    {
        if !struct_form_ok(v, 3, 3) {
            return None;
        }
        let execution = match opt_string(field_of(v, "execution", 0)) {
            Some(x) => x,
            None => {
                return None;
            },
        };
        let description = match opt_string(field_of(v, "description", 1)) {
            Some(x) => x,
            None => {
                return None;
            },
        };
        let parameters = match opt_any(field_of(v, "parameters", 2)) {
            Some(x) => x,
            None => {
                return None;
            },
        };
        Some(SearchTool { execution, description, parameters })
    }
}

/// Create, delete or change files by diffs; the tool has no fields.
#[derive(Debug)]
pub struct ApplyPatchTool {}

// ─── Tools ──────────────────────────────────────────────────────────────

/// A tool available to the model, by its `type`.
#[derive(Debug)]
pub enum Tool {
    Function(FunctionTool),
    FileSearch(FileSearchTool),
    WebSearch(WebSearchTool),
    WebSearchPreview(WebSearchPreviewTool),
    Computer(ComputerTool),
    ComputerUsePreview(ComputerUsePreviewTool),
    CodeInterpreter(CodeInterpreterTool),
    ImageGeneration(ImageGenerationTool),
    Mcp(McpTool),
    LocalShell(LocalShellTool),
    Shell(ShellTool),
    Custom(CustomTool),
    Namespace(NamespaceTool),
    ToolSearch(SearchTool),
    ApplyPatch(ApplyPatchTool),
    /// A tool of a type not known here, or one whose fields do not read,
    /// kept as it was given.
    Unknown(Json),
}

pub ghost enum ToolV {
    Function(FunctionToolV),
    FileSearch(FileSearchToolV),
    WebSearch(WebSearchToolV),
    WebSearchPreview(WebSearchPreviewToolV),
    Computer,
    ComputerUsePreview(ComputerUsePreviewToolV),
    CodeInterpreter(CodeInterpreterToolV),
    ImageGeneration(ImageGenerationToolV),
    Mcp(McpToolV),
    LocalShell,
    Shell(ShellToolV),
    Custom(CustomToolV),
    Namespace(NamespaceToolV),
    ToolSearch(SearchToolV),
    ApplyPatch,
    Unknown(JsonV),
}

impl View for Tool {
    type V = ToolV;

    open spec fn view(&self) -> ToolV {
        match self {
            Tool::Function(x) => ToolV::Function(x@),
            Tool::FileSearch(x) => ToolV::FileSearch(x@),
            Tool::WebSearch(x) => ToolV::WebSearch(x@),
            Tool::WebSearchPreview(x) => ToolV::WebSearchPreview(x@),
            Tool::Computer(_) => ToolV::Computer,
            Tool::ComputerUsePreview(x) => ToolV::ComputerUsePreview(x@),
            Tool::CodeInterpreter(x) => ToolV::CodeInterpreter(x@),
            Tool::ImageGeneration(x) => ToolV::ImageGeneration(x@),
            Tool::Mcp(x) => ToolV::Mcp(x@),
            Tool::LocalShell(_) => ToolV::LocalShell,
            Tool::Shell(x) => ToolV::Shell(x@),
            Tool::Custom(x) => ToolV::Custom(x@),
            Tool::Namespace(x) => ToolV::Namespace(x@),
            Tool::ToolSearch(x) => ToolV::ToolSearch(x@),
            Tool::ApplyPatch(_) => ToolV::ApplyPatch,
            Tool::Unknown(v) => ToolV::Unknown(v@),
        }
    }
}

/// A struct without fields reads from any object, or from an empty array.
pub open spec fn empty_struct_of(v: JsonV) -> bool {
    struct_form(v, 0, 0)
}

/// How a tool reads: its `type` (empty where there is no string `type`)
/// picks the struct; a `type` not known here, or a struct that does not
/// read, leaves the tool unknown, holding the value as it was given.
pub open spec fn tool_def_of(v: JsonV) -> ToolV {
    let t = match v.get_str("type"@) {
        Some(t) => t,
        None => Seq::empty(),
    };
    if t == "function"@ {
        match function_tool_of(v) {
            Some(x) => ToolV::Function(x),
            None => ToolV::Unknown(v),
        }
    } else if t == "file_search"@ {
        match file_search_tool_of(v) {
            Some(x) => ToolV::FileSearch(x),
            None => ToolV::Unknown(v),
        }
    } else if t == "web_search"@ || t == "web_search_2025_08_26"@ {
        match web_search_tool_of(v) {
            Some(x) => ToolV::WebSearch(x),
            None => ToolV::Unknown(v),
        }
    } else if t == "web_search_preview"@ || t == "web_search_preview_2025_03_11"@ {
        match web_search_preview_tool_of(v) {
            Some(x) => ToolV::WebSearchPreview(x),
            None => ToolV::Unknown(v),
        }
    } else if t == "computer"@ {
        if empty_struct_of(v) { ToolV::Computer } else { ToolV::Unknown(v) }
    } else if t == "computer_use_preview"@ {
        match computer_use_preview_tool_of(v) {
            Some(x) => ToolV::ComputerUsePreview(x),
            None => ToolV::Unknown(v),
        }
    } else if t == "code_interpreter"@ {
        match code_interpreter_tool_of(v) {
            Some(x) => ToolV::CodeInterpreter(x),
            None => ToolV::Unknown(v),
        }
    } else if t == "image_generation"@ {
        match image_generation_tool_of(v) {
            Some(x) => ToolV::ImageGeneration(x),
            None => ToolV::Unknown(v),
        }
    } else if t == "mcp"@ {
        match mcp_tool_of(v) {
            Some(x) => ToolV::Mcp(x),
            None => ToolV::Unknown(v),
        }
    } else if t == "local_shell"@ {
        if empty_struct_of(v) { ToolV::LocalShell } else { ToolV::Unknown(v) }
    } else if t == "shell"@ {
        match shell_tool_of(v) {
            Some(x) => ToolV::Shell(x),
            None => ToolV::Unknown(v),
        }
    } else if t == "custom"@ {
        match custom_tool_of(v) {
            Some(x) => ToolV::Custom(x),
            None => ToolV::Unknown(v),
        }
    } else if t == "namespace"@ {
        match namespace_tool_of(v) {
            Some(x) => ToolV::Namespace(x),
            None => ToolV::Unknown(v),
        }
    } else if t == "tool_search"@ {
        match search_tool_of(v) {
            Some(x) => ToolV::ToolSearch(x),
            None => ToolV::Unknown(v),
        }
    } else if t == "apply_patch"@ {
        if empty_struct_of(v) { ToolV::ApplyPatch } else { ToolV::Unknown(v) }
    } else {
        ToolV::Unknown(v)
    }
}

impl Tool {
    /// Reads a tool (see [`tool_def_of`]); reading never fails.
    pub fn from_json(v: &Json) -> (r: Tool)
        ensures
            r@ == tool_def_of(v@),
    {
        let t: &str = match v.get_str("type") {
            Some(t) => t,
            None => "",
        };
        proof {
            reveal_strlit("");
            assert(""@ =~= Seq::<char>::empty());
        }
        assert(t@ == match v@.get_str("type"@) {
            Some(t) => t,
            None => Seq::<char>::empty(),
        });
        if str_eq(t, "function") {
            match FunctionTool::from_json(v) {
                Some(x) => Tool::Function(x),
                None => Tool::Unknown(copy_json(v)),
            }
        } else if str_eq(t, "file_search") {
            match FileSearchTool::from_json(v) {
                Some(x) => Tool::FileSearch(x),
                None => Tool::Unknown(copy_json(v)),
            }
        } else if str_eq(t, "web_search") || str_eq(t, "web_search_2025_08_26") {
            match WebSearchTool::from_json(v) {
                Some(x) => Tool::WebSearch(x),
                None => Tool::Unknown(copy_json(v)),
            }
        } else if str_eq(t, "web_search_preview") || str_eq(t, "web_search_preview_2025_03_11") {
            match WebSearchPreviewTool::from_json(v) {
                Some(x) => Tool::WebSearchPreview(x),
                None => Tool::Unknown(copy_json(v)),
            }
        } else if str_eq(t, "computer") {
            if struct_form_ok(v, 0, 0) {
                Tool::Computer(ComputerTool {  })
            } else {
                Tool::Unknown(copy_json(v))
            }
        } else if str_eq(t, "computer_use_preview") {
            match ComputerUsePreviewTool::from_json(v) {
                Some(x) => Tool::ComputerUsePreview(x),
                None => Tool::Unknown(copy_json(v)),
            }
        } else if str_eq(t, "code_interpreter") {
            match CodeInterpreterTool::from_json(v) {
                Some(x) => Tool::CodeInterpreter(x),
                None => Tool::Unknown(copy_json(v)),
            }
        } else if str_eq(t, "image_generation") {
            match ImageGenerationTool::from_json(v) {
                Some(x) => Tool::ImageGeneration(x),
                None => Tool::Unknown(copy_json(v)),
            }
        } else if str_eq(t, "mcp") {
            match McpTool::from_json(v) {
                Some(x) => Tool::Mcp(x),
                None => Tool::Unknown(copy_json(v)),
            }
        } else if str_eq(t, "local_shell") {
            if struct_form_ok(v, 0, 0) {
                Tool::LocalShell(LocalShellTool {  })
            } else {
                Tool::Unknown(copy_json(v))
            }
        } else if str_eq(t, "shell") {
            match ShellTool::from_json(v) {
                Some(x) => Tool::Shell(x),
                None => Tool::Unknown(copy_json(v)),
            }
        } else if str_eq(t, "custom") {
            match CustomTool::from_json(v) {
                Some(x) => Tool::Custom(x),
                None => Tool::Unknown(copy_json(v)),
            }
        } else if str_eq(t, "namespace") {
            match NamespaceTool::from_json(v) {
                Some(x) => Tool::Namespace(x),
                None => Tool::Unknown(copy_json(v)),
            }
        } else if str_eq(t, "tool_search") {
            match SearchTool::from_json(v) {
                Some(x) => Tool::ToolSearch(x),
                None => Tool::Unknown(copy_json(v)),
            }
        } else if str_eq(t, "apply_patch") {
            if struct_form_ok(v, 0, 0) {
                Tool::ApplyPatch(ApplyPatchTool {  })
            } else {
                Tool::Unknown(copy_json(v))
            }
        } else {
            Tool::Unknown(copy_json(v))
        }
    }
}


// ─── Tools as a request gives them ──────────────────────────────────────

/// A function tool, as a request gives it.
#[derive(Debug)]
pub struct FunctionToolRequest {
    pub name: Option<String>,
    pub description: Option<String>,
    pub parameters: Option<Json>,
    pub strict: Option<bool>,
    pub defer_loading: Option<bool>,
}

pub ghost struct FunctionToolRequestV {
    pub name: Option<Seq<char>>,
    pub description: Option<Seq<char>>,
    pub parameters: Option<JsonV>,
    pub strict: Option<bool>,
    pub defer_loading: Option<bool>,
}

impl View for FunctionToolRequest {
    type V = FunctionToolRequestV;

    open spec fn view(&self) -> FunctionToolRequestV {
        FunctionToolRequestV {
            name: o_view(self.name),
            description: o_view(self.description),
            parameters: o_view(self.parameters),
            strict: self.strict,
            defer_loading: self.defer_loading,
        }
    }
}

/// How `FunctionToolRequest` reads from `v`; `None` where it does not.
pub open spec fn function_tool_request_of(v: JsonV) -> Option<FunctionToolRequestV> {
    let name = opt_string_member(field_at(v, "name"@, 0));
    let description = opt_string_member(field_at(v, "description"@, 1));
    let parameters = opt_any_member(field_at(v, "parameters"@, 2));
    let strict = opt_bool_member(field_at(v, "strict"@, 3));
    let defer_loading = opt_bool_member(field_at(v, "defer_loading"@, 4));
    if struct_form(v, 5, 5)
        && name is Some
        && description is Some
        && parameters is Some
        && strict is Some
        && defer_loading is Some {
        Some(
            FunctionToolRequestV {
                name: name->0,
                description: description->0,
                parameters: parameters->0,
                strict: strict->0,
                defer_loading: defer_loading->0,
            },
        )
    } else {
        None
    }
}

impl FunctionToolRequest {
    /// Reads a `FunctionToolRequest` (see [`function_tool_request_of`]).
    pub fn from_json(v: &Json) -> (r: Option<FunctionToolRequest>)
        ensures
            o_view(r) == function_tool_request_of(v@),
    {
        if !struct_form_ok(v, 5, 5) {
            return None;
        }
        let name = match opt_string(field_of(v, "name", 0)) {
            Some(x) => x,
            None => {
                return None;
            },
        };
        let description = match opt_string(field_of(v, "description", 1)) {
            Some(x) => x,
            None => {
                return None;
            },
        };
        let parameters = match opt_any(field_of(v, "parameters", 2)) {
            Some(x) => x,
            None => {
                return None;
            },
        };
        let strict = match opt_bool(field_of(v, "strict", 3)) {
            Some(x) => x,
            None => {
                return None;
            },
        };
        let defer_loading = match opt_bool(field_of(v, "defer_loading", 4)) {
            Some(x) => x,
            None => {
                return None;
            },
        };
        Some(FunctionToolRequest { name, description, parameters, strict, defer_loading })
    }
}

/// A file search tool, as a request gives it.
#[derive(Debug)]
pub struct FileSearchToolRequest {
    pub vector_store_ids: Option<Vec<String>>,
    pub max_num_results: Option<i64>,
    pub filters: Option<FileSearchFilters>,
    pub ranking_options: Option<RankingOptions>,
}

pub ghost struct FileSearchToolRequestV {
    pub vector_store_ids: Option<Seq<Seq<char>>>,
    pub max_num_results: Option<i64>,
    pub filters: Option<FileSearchFiltersV>,
    pub ranking_options: Option<RankingOptionsV>,
}

impl View for FileSearchToolRequest {
    type V = FileSearchToolRequestV;

    open spec fn view(&self) -> FileSearchToolRequestV {
        FileSearchToolRequestV {
            vector_store_ids: opt_vec_view(self.vector_store_ids),
            max_num_results: self.max_num_results,
            filters: o_view(self.filters),
            ranking_options: o_view(self.ranking_options),
        }
    }
}

/// How `FileSearchToolRequest` reads from `v`; `None` where it does not.
pub open spec fn file_search_tool_request_of(v: JsonV) -> Option<FileSearchToolRequestV> {
    let vector_store_ids = opt_strings_member(field_at(v, "vector_store_ids"@, 0));
    let max_num_results = opt_i64_member(field_at(v, "max_num_results"@, 1));
    let filters = opt_file_search_filters_member(field_at(v, "filters"@, 2));
    let ranking_options = opt_ranking_options_member(field_at(v, "ranking_options"@, 3));
    if struct_form(v, 4, 4)
        && vector_store_ids is Some
        && max_num_results is Some
        && filters is Some
        && ranking_options is Some {
        Some(
            FileSearchToolRequestV {
                vector_store_ids: vector_store_ids->0,
                max_num_results: max_num_results->0,
                filters: filters->0,
                ranking_options: ranking_options->0,
            },
        )
    } else {
        None
    }
}

impl FileSearchToolRequest {
    /// Reads a `FileSearchToolRequest` (see [`file_search_tool_request_of`]).
    pub fn from_json(v: &Json) -> (r: Option<FileSearchToolRequest>)
        ensures
            o_view(r) == file_search_tool_request_of(v@),
    {
        if !struct_form_ok(v, 4, 4) {
            return None;
        }
        let vector_store_ids = match opt_strings(field_of(v, "vector_store_ids", 0)) {
            Some(x) => x,
            None => {
                return None;
            },
        };
        let max_num_results = match opt_i64(field_of(v, "max_num_results", 1)) {
            Some(x) => x,
            None => {
                return None;
            },
        };
        let filters = match opt_file_search_filters_at(field_of(v, "filters", 2)) {
            Some(x) => x,
            None => {
                return None;
            },
        };
        let ranking_options = match opt_ranking_options_at(field_of(v, "ranking_options", 3)) {
            Some(x) => x,
            None => {
                return None;
            },
        };
        Some(FileSearchToolRequest { vector_store_ids, max_num_results, filters, ranking_options })
    }
}

/// A web search tool, as a request gives it.
#[derive(Debug)]
pub struct WebSearchToolRequest {
    pub allowed_domains: Option<Vec<String>>,
    pub search_context_size: Option<String>,
    pub user_location: Option<UserLocation>,
    pub filters: Option<Json>,
}

pub ghost struct WebSearchToolRequestV {
    pub allowed_domains: Option<Seq<Seq<char>>>,
    pub search_context_size: Option<Seq<char>>,
    pub user_location: Option<UserLocationV>,
    pub filters: Option<JsonV>,
}

impl View for WebSearchToolRequest {
    type V = WebSearchToolRequestV;

    open spec fn view(&self) -> WebSearchToolRequestV {
        WebSearchToolRequestV {
            allowed_domains: opt_vec_view(self.allowed_domains),
            search_context_size: o_view(self.search_context_size),
            user_location: o_view(self.user_location),
            filters: o_view(self.filters),
        }
    }
}

/// How `WebSearchToolRequest` reads from `v`; `None` where it does not.
pub open spec fn web_search_tool_request_of(v: JsonV) -> Option<WebSearchToolRequestV> {
    let allowed_domains = opt_strings_member(field_at(v, "allowed_domains"@, 0));
    let search_context_size = opt_string_member(field_at(v, "search_context_size"@, 1));
    let user_location = opt_user_location_member(field_at(v, "user_location"@, 2));
    let filters = opt_any_member(field_at(v, "filters"@, 3));
    if struct_form(v, 0, 4)
        && allowed_domains is Some
        && search_context_size is Some
        && user_location is Some
        && filters is Some {
        Some(
            WebSearchToolRequestV {
                allowed_domains: allowed_domains->0,
                search_context_size: search_context_size->0,
                user_location: user_location->0,
                filters: filters->0,
            },
        )
    } else {
        None
    }
}

impl WebSearchToolRequest {
    /// Reads a `WebSearchToolRequest` (see [`web_search_tool_request_of`]).
    pub fn from_json(v: &Json) -> (r: Option<WebSearchToolRequest>)
        ensures
            o_view(r) == web_search_tool_request_of(v@),
    {
        if !struct_form_ok(v, 0, 4) {
            return None;
        }
        let allowed_domains = match opt_strings(field_of(v, "allowed_domains", 0)) {
            Some(x) => x,
            None => {
                return None;
            },
        };
        let search_context_size = match opt_string(field_of(v, "search_context_size", 1)) {
            Some(x) => x,
            None => {
                return None;
            },
        };
        let user_location = match opt_user_location_at(field_of(v, "user_location", 2)) {
            Some(x) => x,
            None => {
                return None;
            },
        };
        let filters = match opt_any(field_of(v, "filters", 3)) {
            Some(x) => x,
            None => {
                return None;
            },
        };
        Some(WebSearchToolRequest { allowed_domains, search_context_size, user_location, filters })
    }
}

/// A web search preview tool, as a request gives it.
#[derive(Debug)]
pub struct WebSearchPreviewToolRequest {
    pub search_context_size: Option<String>,
    pub user_location: Option<UserLocation>,
    pub search_content_types: Option<Vec<String>>,
}

pub ghost struct WebSearchPreviewToolRequestV {
    pub search_context_size: Option<Seq<char>>,
    pub user_location: Option<UserLocationV>,
    pub search_content_types: Option<Seq<Seq<char>>>,
}

impl View for WebSearchPreviewToolRequest {
    type V = WebSearchPreviewToolRequestV;

    open spec fn view(&self) -> WebSearchPreviewToolRequestV {
        WebSearchPreviewToolRequestV {
            search_context_size: o_view(self.search_context_size),
            user_location: o_view(self.user_location),
            search_content_types: opt_vec_view(self.search_content_types),
        }
    }
}

/// How `WebSearchPreviewToolRequest` reads from `v`; `None` where it does not.
pub open spec fn web_search_preview_tool_request_of(v: JsonV) -> Option<WebSearchPreviewToolRequestV> {
    let search_context_size = opt_string_member(field_at(v, "search_context_size"@, 0));
    let user_location = opt_user_location_member(field_at(v, "user_location"@, 1));
    let search_content_types = opt_strings_member(field_at(v, "search_content_types"@, 2));
    if struct_form(v, 3, 3)
        && search_context_size is Some
        && user_location is Some
        && search_content_types is Some {
        Some(
            WebSearchPreviewToolRequestV {
                search_context_size: search_context_size->0,
                user_location: user_location->0,
                search_content_types: search_content_types->0,
            },
        )
    } else {
        None
    }
}

impl WebSearchPreviewToolRequest {
    /// Reads a `WebSearchPreviewToolRequest` (see [`web_search_preview_tool_request_of`]).
    pub fn from_json(v: &Json) -> (r: Option<WebSearchPreviewToolRequest>)
        ensures
            o_view(r) == web_search_preview_tool_request_of(v@),
    {
        if !struct_form_ok(v, 3, 3) {
            return None;
        }
        let search_context_size = match opt_string(field_of(v, "search_context_size", 0)) {
            Some(x) => x,
            None => {
                return None;
            },
        };
        let user_location = match opt_user_location_at(field_of(v, "user_location", 1)) {
            Some(x) => x,
            None => {
                return None;
            },
        };
        let search_content_types = match opt_strings(field_of(v, "search_content_types", 2)) {
            Some(x) => x,
            None => {
                return None;
            },
        };
        Some(
            WebSearchPreviewToolRequest {
                search_context_size,
                user_location,
                search_content_types,
            },
        )
    }
}

/// A computer tool, as a request gives it; it has no fields.
#[derive(Debug)]
pub struct ComputerToolRequest {}

/// A computer use preview tool, as a request gives it.
#[derive(Debug)]
pub struct ComputerUsePreviewToolRequest {
    pub display_width: Option<i64>,
    pub display_height: Option<i64>,
    pub environment: Option<String>,
}

pub ghost struct ComputerUsePreviewToolRequestV {
    pub display_width: Option<i64>,
    pub display_height: Option<i64>,
    pub environment: Option<Seq<char>>,
}

impl View for ComputerUsePreviewToolRequest {
    type V = ComputerUsePreviewToolRequestV;

    open spec fn view(&self) -> ComputerUsePreviewToolRequestV {
        ComputerUsePreviewToolRequestV {
            display_width: self.display_width,
            display_height: self.display_height,
            environment: o_view(self.environment),
        }
    }
}

/// How `ComputerUsePreviewToolRequest` reads from `v`; `None` where it does not.
pub open spec fn computer_use_preview_tool_request_of(v: JsonV) -> Option<ComputerUsePreviewToolRequestV> {
    let display_width = opt_i64_member(field_at(v, "display_width"@, 0));
    let display_height = opt_i64_member(field_at(v, "display_height"@, 1));
    let environment = opt_string_member(field_at(v, "environment"@, 2));
    if struct_form(v, 0, 3)
        && display_width is Some
        && display_height is Some
        && environment is Some {
        Some(
            ComputerUsePreviewToolRequestV {
                display_width: display_width->0,
                display_height: display_height->0,
                environment: environment->0,
            },
        )
    } else {
        None
    }
}

impl ComputerUsePreviewToolRequest {
    /// Reads a `ComputerUsePreviewToolRequest` (see [`computer_use_preview_tool_request_of`]).
    pub fn from_json(v: &Json) -> (r: Option<ComputerUsePreviewToolRequest>)
        ensures
            o_view(r) == computer_use_preview_tool_request_of(v@),
    {
        if !struct_form_ok(v, 0, 3) {
            return None;
        }
        let display_width = match opt_i64(field_of(v, "display_width", 0)) {
            Some(x) => x,
            None => {
                return None;
            },
        };
        let display_height = match opt_i64(field_of(v, "display_height", 1)) {
            Some(x) => x,
            None => {
                return None;
            },
        };
        let environment = match opt_string(field_of(v, "environment", 2)) {
            Some(x) => x,
            None => {
                return None;
            },
        };
        Some(ComputerUsePreviewToolRequest { display_width, display_height, environment })
    }
}

/// A code interpreter tool, as a request gives it.
#[derive(Debug)]
pub struct CodeInterpreterToolRequest {
    pub container: Option<CodeInterpreterContainer>,
}

pub ghost struct CodeInterpreterToolRequestV {
    pub container: Option<CodeInterpreterContainerV>,
}

impl View for CodeInterpreterToolRequest {
    type V = CodeInterpreterToolRequestV;

    open spec fn view(&self) -> CodeInterpreterToolRequestV {
        CodeInterpreterToolRequestV { container: o_view(self.container) }
    }
}

/// How `CodeInterpreterToolRequest` reads from `v`; `None` where it does not.
pub open spec fn code_interpreter_tool_request_of(v: JsonV) -> Option<CodeInterpreterToolRequestV> {
    let container = opt_code_interpreter_container_member(field_at(v, "container"@, 0));
    if struct_form(v, 1, 1)
        && container is Some {
        Some(CodeInterpreterToolRequestV { container: container->0 })
    } else {
        None
    }
}

impl CodeInterpreterToolRequest {
    /// Reads a `CodeInterpreterToolRequest` (see [`code_interpreter_tool_request_of`]).
    pub fn from_json(v: &Json) -> (r: Option<CodeInterpreterToolRequest>)
        ensures
            o_view(r) == code_interpreter_tool_request_of(v@),
    {
        if !struct_form_ok(v, 1, 1) {
            return None;
        }
        let container = match opt_code_interpreter_container_at(field_of(v, "container", 0)) {
            Some(x) => x,
            None => {
                return None;
            },
        };
        Some(CodeInterpreterToolRequest { container })
    }
}

/// An image generation tool, as a request gives it.
#[derive(Debug)]
pub struct ImageGenerationToolRequest {
    pub action: Option<String>,
    pub background: Option<String>,
    pub input_fidelity: Option<String>,
    pub input_image_mask: Option<ImageMask>,
    pub model: Option<String>,
    pub moderation: Option<String>,
    pub output_compression: Option<i64>,
    pub output_format: Option<String>,
    pub partial_images: Option<i64>,
    pub quality: Option<String>,
    pub size: Option<String>,
}

pub ghost struct ImageGenerationToolRequestV {
    pub action: Option<Seq<char>>,
    pub background: Option<Seq<char>>,
    pub input_fidelity: Option<Seq<char>>,
    pub input_image_mask: Option<ImageMaskV>,
    pub model: Option<Seq<char>>,
    pub moderation: Option<Seq<char>>,
    pub output_compression: Option<i64>,
    pub output_format: Option<Seq<char>>,
    pub partial_images: Option<i64>,
    pub quality: Option<Seq<char>>,
    pub size: Option<Seq<char>>,
}

impl View for ImageGenerationToolRequest {
    type V = ImageGenerationToolRequestV;

    open spec fn view(&self) -> ImageGenerationToolRequestV {
        ImageGenerationToolRequestV {
            action: o_view(self.action),
            background: o_view(self.background),
            input_fidelity: o_view(self.input_fidelity),
            input_image_mask: o_view(self.input_image_mask),
            model: o_view(self.model),
            moderation: o_view(self.moderation),
            output_compression: self.output_compression,
            output_format: o_view(self.output_format),
            partial_images: self.partial_images,
            quality: o_view(self.quality),
            size: o_view(self.size),
        }
    }
}

/// How `ImageGenerationToolRequest` reads from `v`; `None` where it does not.
pub open spec fn image_generation_tool_request_of(v: JsonV) -> Option<ImageGenerationToolRequestV> {
    let action = opt_string_member(field_at(v, "action"@, 0));
    let background = opt_string_member(field_at(v, "background"@, 1));
    let input_fidelity = opt_string_member(field_at(v, "input_fidelity"@, 2));
    let input_image_mask = opt_image_mask_member(field_at(v, "input_image_mask"@, 3));
    let model = opt_string_member(field_at(v, "model"@, 4));
    let moderation = opt_string_member(field_at(v, "moderation"@, 5));
    let output_compression = opt_i64_member(field_at(v, "output_compression"@, 6));
    let output_format = opt_string_member(field_at(v, "output_format"@, 7));
    let partial_images = opt_i64_member(field_at(v, "partial_images"@, 8));
    let quality = opt_string_member(field_at(v, "quality"@, 9));
    let size = opt_string_member(field_at(v, "size"@, 10));
    if struct_form(v, 0, 11)
        && action is Some
        && background is Some
        && input_fidelity is Some
        && input_image_mask is Some
        && model is Some
        && moderation is Some
        && output_compression is Some
        && output_format is Some
        && partial_images is Some
        && quality is Some
        && size is Some {
        Some(
            ImageGenerationToolRequestV {
                action: action->0,
                background: background->0,
                input_fidelity: input_fidelity->0,
                input_image_mask: input_image_mask->0,
                model: model->0,
                moderation: moderation->0,
                output_compression: output_compression->0,
                output_format: output_format->0,
                partial_images: partial_images->0,
                quality: quality->0,
                size: size->0,
            },
        )
    } else {
        None
    }
}

impl ImageGenerationToolRequest {
    /// Reads a `ImageGenerationToolRequest` (see [`image_generation_tool_request_of`]).
    pub fn from_json(v: &Json) -> (r: Option<ImageGenerationToolRequest>)
        ensures
            o_view(r) == image_generation_tool_request_of(v@),
    {
        if !struct_form_ok(v, 0, 11) {
            return None;
        }
        let action = match opt_string(field_of(v, "action", 0)) {
            Some(x) => x,
            None => {
                return None;
            },
        };
        let background = match opt_string(field_of(v, "background", 1)) {
            Some(x) => x,
            None => {
                return None;
            },
        };
        let input_fidelity = match opt_string(field_of(v, "input_fidelity", 2)) {
            Some(x) => x,
            None => {
                return None;
            },
        };
        let input_image_mask = match opt_image_mask_at(field_of(v, "input_image_mask", 3)) {
            Some(x) => x,
            None => {
                return None;
            },
        };
        let model = match opt_string(field_of(v, "model", 4)) {
            Some(x) => x,
            None => {
                return None;
            },
        };
        let moderation = match opt_string(field_of(v, "moderation", 5)) {
            Some(x) => x,
            None => {
                return None;
            },
        };
        let output_compression = match opt_i64(field_of(v, "output_compression", 6)) {
            Some(x) => x,
            None => {
                return None;
            },
        };
        let output_format = match opt_string(field_of(v, "output_format", 7)) {
            Some(x) => x,
            None => {
                return None;
            },
        };
        let partial_images = match opt_i64(field_of(v, "partial_images", 8)) {
            Some(x) => x,
            None => {
                return None;
            },
        };
        let quality = match opt_string(field_of(v, "quality", 9)) {
            Some(x) => x,
            None => {
                return None;
            },
        };
        let size = match opt_string(field_of(v, "size", 10)) {
            Some(x) => x,
            None => {
                return None;
            },
        };
        Some(
            ImageGenerationToolRequest {
                action,
                background,
                input_fidelity,
                input_image_mask,
                model,
                moderation,
                output_compression,
                output_format,
                partial_images,
                quality,
                size,
            },
        )
    }
}

/// An MCP tool, as a request gives it.
#[derive(Debug)]
pub struct McpToolRequest {
    pub server_label: Option<String>,
    pub server_url: Option<String>,
    pub connector_id: Option<String>,
    pub authorization: Option<String>,
    pub headers: Option<Vec<(String, String)>>,
    pub server_description: Option<String>,
    pub defer_loading: Option<bool>,
    pub allowed_tools: Option<McpAllowedTools>,
    pub require_approval: Option<McpRequireApproval>,
}

pub ghost struct McpToolRequestV {
    pub server_label: Option<Seq<char>>,
    pub server_url: Option<Seq<char>>,
    pub connector_id: Option<Seq<char>>,
    pub authorization: Option<Seq<char>>,
    pub headers: Option<Seq<(Seq<char>, Seq<char>)>>,
    pub server_description: Option<Seq<char>>,
    pub defer_loading: Option<bool>,
    pub allowed_tools: Option<McpAllowedToolsV>,
    pub require_approval: Option<McpRequireApprovalV>,
}

impl View for McpToolRequest {
    type V = McpToolRequestV;

    open spec fn view(&self) -> McpToolRequestV {
        McpToolRequestV {
            server_label: o_view(self.server_label),
            server_url: o_view(self.server_url),
            connector_id: o_view(self.connector_id),
            authorization: o_view(self.authorization),
            headers: opt_pairs_view(self.headers),
            server_description: o_view(self.server_description),
            defer_loading: self.defer_loading,
            allowed_tools: o_view(self.allowed_tools),
            require_approval: o_view(self.require_approval),
        }
    }
}

/// How `McpToolRequest` reads from `v`; `None` where it does not.
pub open spec fn mcp_tool_request_of(v: JsonV) -> Option<McpToolRequestV> {
    let server_label = opt_string_member(field_at(v, "server_label"@, 0));
    let server_url = opt_string_member(field_at(v, "server_url"@, 1));
    let connector_id = opt_string_member(field_at(v, "connector_id"@, 2));
    let authorization = opt_string_member(field_at(v, "authorization"@, 3));
    let headers = opt_string_map_member(field_at(v, "headers"@, 4));
    let server_description = opt_string_member(field_at(v, "server_description"@, 5));
    let defer_loading = opt_bool_member(field_at(v, "defer_loading"@, 6));
    let allowed_tools = opt_mcp_allowed_tools_member(field_at(v, "allowed_tools"@, 7));
    let require_approval = opt_mcp_require_approval_member(field_at(v, "require_approval"@, 8));
    if struct_form(v, 9, 9)
        && server_label is Some
        && server_url is Some
        && connector_id is Some
        && authorization is Some
        && headers is Some
        && server_description is Some
        && defer_loading is Some
        && allowed_tools is Some
        && require_approval is Some {
        Some(
            McpToolRequestV {
                server_label: server_label->0,
                server_url: server_url->0,
                connector_id: connector_id->0,
                authorization: authorization->0,
                headers: headers->0,
                server_description: server_description->0,
                defer_loading: defer_loading->0,
                allowed_tools: allowed_tools->0,
                require_approval: require_approval->0,
            },
        )
    } else {
        None
    }
}

impl McpToolRequest {
    /// Reads a `McpToolRequest` (see [`mcp_tool_request_of`]).
    pub fn from_json(v: &Json) -> (r: Option<McpToolRequest>)
        ensures
            o_view(r) == mcp_tool_request_of(v@),
    {
        if !struct_form_ok(v, 9, 9) {
            return None;
        }
        let server_label = match opt_string(field_of(v, "server_label", 0)) {
            Some(x) => x,
            None => {
                return None;
            },
        };
        let server_url = match opt_string(field_of(v, "server_url", 1)) {
            Some(x) => x,
            None => {
                return None;
            },
        };
        let connector_id = match opt_string(field_of(v, "connector_id", 2)) {
            Some(x) => x,
            None => {
                return None;
            },
        };
        let authorization = match opt_string(field_of(v, "authorization", 3)) {
            Some(x) => x,
            None => {
                return None;
            },
        };
        let headers = match opt_string_map(field_of(v, "headers", 4)) {
            Some(x) => x,
            None => {
                return None;
            },
        };
        let server_description = match opt_string(field_of(v, "server_description", 5)) {
            Some(x) => x,
            None => {
                return None;
            },
        };
        let defer_loading = match opt_bool(field_of(v, "defer_loading", 6)) {
            Some(x) => x,
            None => {
                return None;
            },
        };
        let allowed_tools = match opt_mcp_allowed_tools_at(field_of(v, "allowed_tools", 7)) {
            Some(x) => x,
            None => {
                return None;
            },
        };
        let require_approval = match opt_mcp_require_approval_at(field_of(v, "require_approval", 8)) {
            Some(x) => x,
            None => {
                return None;
            },
        };
        Some(
            McpToolRequest {
                server_label,
                server_url,
                connector_id,
                authorization,
                headers,
                server_description,
                defer_loading,
                allowed_tools,
                require_approval,
            },
        )
    }
}

/// A local shell tool, as a request gives it; it has no fields.
#[derive(Debug)]
pub struct LocalShellToolRequest {}

/// A shell tool, as a request gives it.
#[derive(Debug)]
pub struct ShellToolRequest {
    pub environment: Option<Environment>,
}

pub ghost struct ShellToolRequestV {
    pub environment: Option<EnvironmentV>,
}

impl View for ShellToolRequest {
    type V = ShellToolRequestV;

    open spec fn view(&self) -> ShellToolRequestV {
        ShellToolRequestV { environment: o_view(self.environment) }
    }
}

/// How `ShellToolRequest` reads from `v`; `None` where it does not.
pub open spec fn shell_tool_request_of(v: JsonV) -> Option<ShellToolRequestV> {
    let environment = opt_environment_member(field_at(v, "environment"@, 0), true);
    if struct_form(v, 0, 1)
        && environment is Some {
        Some(ShellToolRequestV { environment: environment->0 })
    } else {
        None
    }
}

impl ShellToolRequest {
    /// Reads a `ShellToolRequest` (see [`shell_tool_request_of`]).
    pub fn from_json(v: &Json) -> (r: Option<ShellToolRequest>)
        ensures
            o_view(r) == shell_tool_request_of(v@),
    {
        if !struct_form_ok(v, 0, 1) {
            return None;
        }
        let environment = match opt_environment_at(field_of(v, "environment", 0), true) {
            Some(x) => x,
            None => {
                return None;
            },
        };
        Some(ShellToolRequest { environment })
    }
}

/// A custom tool, as a request gives it.
#[derive(Debug)]
pub struct CustomToolRequest {
    pub name: Option<String>,
    pub description: Option<String>,
    pub defer_loading: Option<bool>,
    pub format: Option<CustomToolFormat>,
}

pub ghost struct CustomToolRequestV {
    pub name: Option<Seq<char>>,
    pub description: Option<Seq<char>>,
    pub defer_loading: Option<bool>,
    pub format: Option<CustomToolFormatV>,
}

impl View for CustomToolRequest {
    type V = CustomToolRequestV;

    open spec fn view(&self) -> CustomToolRequestV {
        CustomToolRequestV {
            name: o_view(self.name),
            description: o_view(self.description),
            defer_loading: self.defer_loading,
            format: o_view(self.format),
        }
    }
}

/// How `CustomToolRequest` reads from `v`; `None` where it does not.
pub open spec fn custom_tool_request_of(v: JsonV) -> Option<CustomToolRequestV> {
    let name = opt_string_member(field_at(v, "name"@, 0));
    let description = opt_string_member(field_at(v, "description"@, 1));
    let defer_loading = opt_bool_member(field_at(v, "defer_loading"@, 2));
    let format = opt_custom_tool_format_member(field_at(v, "format"@, 3));
    if struct_form(v, 4, 4)
        && name is Some
        && description is Some
        && defer_loading is Some
        && format is Some {
        Some(
            CustomToolRequestV {
                name: name->0,
                description: description->0,
                defer_loading: defer_loading->0,
                format: format->0,
            },
        )
    } else {
        None
    }
}

impl CustomToolRequest {
    /// Reads a `CustomToolRequest` (see [`custom_tool_request_of`]).
    pub fn from_json(v: &Json) -> (r: Option<CustomToolRequest>)
        ensures
            o_view(r) == custom_tool_request_of(v@),
    {
        if !struct_form_ok(v, 4, 4) {
            return None;
        }
        let name = match opt_string(field_of(v, "name", 0)) {
            Some(x) => x,
            None => {
                return None;
            },
        };
        let description = match opt_string(field_of(v, "description", 1)) {
            Some(x) => x,
            None => {
                return None;
            },
        };
        let defer_loading = match opt_bool(field_of(v, "defer_loading", 2)) {
            Some(x) => x,
            None => {
                return None;
            },
        };
        let format = match opt_custom_tool_format_at(field_of(v, "format", 3)) {
            Some(x) => x,
            None => {
                return None;
            },
        };
        Some(CustomToolRequest { name, description, defer_loading, format })
    }
}

/// A namespace of tools, as a request gives it.
#[derive(Debug)]
pub struct NamespaceToolRequest {
    pub name: Option<String>,
    pub description: Option<String>,
    pub tools: Option<Vec<NamespaceToolItem>>,
}

pub ghost struct NamespaceToolRequestV {
    pub name: Option<Seq<char>>,
    pub description: Option<Seq<char>>,
    pub tools: Option<Seq<NamespaceToolItemV>>,
}

impl View for NamespaceToolRequest {
    type V = NamespaceToolRequestV;

    open spec fn view(&self) -> NamespaceToolRequestV {
        NamespaceToolRequestV {
            name: o_view(self.name),
            description: o_view(self.description),
            tools: opt_vec_view(self.tools),
        }
    }
}

/// How `NamespaceToolRequest` reads from `v`; `None` where it does not.
pub open spec fn namespace_tool_request_of(v: JsonV) -> Option<NamespaceToolRequestV> {
    let name = opt_string_member(field_at(v, "name"@, 0));
    let description = opt_string_member(field_at(v, "description"@, 1));
    let tools = opt_namespace_tool_item_list_member(field_at(v, "tools"@, 2), true);
    if struct_form(v, 3, 3)
        && name is Some
        && description is Some
        && tools is Some {
        Some(NamespaceToolRequestV { name: name->0, description: description->0, tools: tools->0 })
    } else {
        None
    }
}

impl NamespaceToolRequest {
    /// Reads a `NamespaceToolRequest` (see [`namespace_tool_request_of`]).
    pub fn from_json(v: &Json) -> (r: Option<NamespaceToolRequest>)
        ensures
            o_view(r) == namespace_tool_request_of(v@),
    {
        if !struct_form_ok(v, 3, 3) {
            return None;
        }
        let name = match opt_string(field_of(v, "name", 0)) {
            Some(x) => x,
            None => {
                return None;
            },
        };
        let description = match opt_string(field_of(v, "description", 1)) {
            Some(x) => x,
            None => {
                return None;
            },
        };
        let tools = match opt_namespace_tool_item_list_at(field_of(v, "tools", 2), true) {
            Some(x) => x,
            None => {
                return None;
            },
        };
        Some(NamespaceToolRequest { name, description, tools })
    }
}

/// A tool search tool, as a request gives it.
#[derive(Debug)]
pub struct SearchToolRequest {
    pub execution: Option<String>,
    pub description: Option<String>,
    pub parameters: Option<Json>,
}

pub ghost struct SearchToolRequestV {
    pub execution: Option<Seq<char>>,
    pub description: Option<Seq<char>>,
    pub parameters: Option<JsonV>,
}

impl View for SearchToolRequest {
    type V = SearchToolRequestV;

    open spec fn view(&self) -> SearchToolRequestV {
        SearchToolRequestV {
            execution: o_view(self.execution),
            description: o_view(self.description),
            parameters: o_view(self.parameters),
        }
    }
}

/// How `SearchToolRequest` reads from `v`; `None` where it does not.
pub open spec fn search_tool_request_of(v: JsonV) -> Option<SearchToolRequestV> {
    let execution = opt_string_member(field_at(v, "execution"@, 0));
    let description = opt_string_member(field_at(v, "description"@, 1));
    let parameters = opt_any_member(field_at(v, "parameters"@, 2));
    if struct_form(v, 3, 3)
        && execution is Some
        && description is Some
        && parameters is Some {
        Some(
            SearchToolRequestV {
                execution: execution->0,
                description: description->0,
                parameters: parameters->0,
            },
        )
    } else {
        None
    }
}

impl SearchToolRequest {
    /// Reads a `SearchToolRequest` (see [`search_tool_request_of`]).
    pub fn from_json(v: &Json) -> (r: Option<SearchToolRequest>)
        ensures
            o_view(r) == search_tool_request_of(v@),
    {
        if !struct_form_ok(v, 3, 3) {
            return None;
        }
        let execution = match opt_string(field_of(v, "execution", 0)) {
            Some(x) => x,
            None => {
                return None;
            },
        };
        let description = match opt_string(field_of(v, "description", 1)) {
            Some(x) => x,
            None => {
                return None;
            },
        };
        let parameters = match opt_any(field_of(v, "parameters", 2)) {
            Some(x) => x,
            None => {
                return None;
            },
        };
        Some(SearchToolRequest { execution, description, parameters })
    }
}

/// An apply-patch tool, as a request gives it; it has no fields.
#[derive(Debug)]
pub struct ApplyPatchToolRequest {}

/// A tool as a request gives it, by its `type`; unlike a [`Tool`], an
/// unknown type does not read.
#[derive(Debug)]
pub enum ToolRequest {
    Function(FunctionToolRequest),
    FileSearch(FileSearchToolRequest),
    WebSearch(WebSearchToolRequest),
    WebSearchPreview(WebSearchPreviewToolRequest),
    Computer(ComputerToolRequest),
    ComputerUsePreview(ComputerUsePreviewToolRequest),
    CodeInterpreter(CodeInterpreterToolRequest),
    ImageGeneration(ImageGenerationToolRequest),
    Mcp(McpToolRequest),
    LocalShell(LocalShellToolRequest),
    Shell(ShellToolRequest),
    Custom(CustomToolRequest),
    Namespace(NamespaceToolRequest),
    ToolSearch(SearchToolRequest),
    ApplyPatch(ApplyPatchToolRequest),
}

pub ghost enum ToolRequestV {
    Function(FunctionToolRequestV),
    FileSearch(FileSearchToolRequestV),
    WebSearch(WebSearchToolRequestV),
    WebSearchPreview(WebSearchPreviewToolRequestV),
    Computer,
    ComputerUsePreview(ComputerUsePreviewToolRequestV),
    CodeInterpreter(CodeInterpreterToolRequestV),
    ImageGeneration(ImageGenerationToolRequestV),
    Mcp(McpToolRequestV),
    LocalShell,
    Shell(ShellToolRequestV),
    Custom(CustomToolRequestV),
    Namespace(NamespaceToolRequestV),
    ToolSearch(SearchToolRequestV),
    ApplyPatch,
}

impl View for ToolRequest {
    type V = ToolRequestV;

    open spec fn view(&self) -> ToolRequestV {
        match self {
            ToolRequest::Function(x) => ToolRequestV::Function(x@),
            ToolRequest::FileSearch(x) => ToolRequestV::FileSearch(x@),
            ToolRequest::WebSearch(x) => ToolRequestV::WebSearch(x@),
            ToolRequest::WebSearchPreview(x) => ToolRequestV::WebSearchPreview(x@),
            ToolRequest::Computer(_) => ToolRequestV::Computer,
            ToolRequest::ComputerUsePreview(x) => ToolRequestV::ComputerUsePreview(x@),
            ToolRequest::CodeInterpreter(x) => ToolRequestV::CodeInterpreter(x@),
            ToolRequest::ImageGeneration(x) => ToolRequestV::ImageGeneration(x@),
            ToolRequest::Mcp(x) => ToolRequestV::Mcp(x@),
            ToolRequest::LocalShell(_) => ToolRequestV::LocalShell,
            ToolRequest::Shell(x) => ToolRequestV::Shell(x@),
            ToolRequest::Custom(x) => ToolRequestV::Custom(x@),
            ToolRequest::Namespace(x) => ToolRequestV::Namespace(x@),
            ToolRequest::ToolSearch(x) => ToolRequestV::ToolSearch(x@),
            ToolRequest::ApplyPatch(_) => ToolRequestV::ApplyPatch,
        }
    }
}

/// How a tool of a request reads: by its `type` tag, then the rest of it
/// as that tool's struct, read as a buffered value.
pub open spec fn tool_request_of(v: JsonV) -> Option<ToolRequestV> {
    match tag_and_body(v) {
        None => None,
        Some((t, body)) => 
        if tag_is(t, "function"@, 0, false) {
            match function_tool_request_of(body) {
                Some(x) => Some(ToolRequestV::Function(x)),
                None => None,
            }
        } else if tag_is(t, "file_search"@, 1, false) {
            match file_search_tool_request_of(body) {
                Some(x) => Some(ToolRequestV::FileSearch(x)),
                None => None,
            }
        } else if tag_is(t, "web_search"@, 2, false) {
            match web_search_tool_request_of(body) {
                Some(x) => Some(ToolRequestV::WebSearch(x)),
                None => None,
            }
        } else if tag_is(t, "web_search_preview"@, 3, false) {
            match web_search_preview_tool_request_of(body) {
                Some(x) => Some(ToolRequestV::WebSearchPreview(x)),
                None => None,
            }
        } else if tag_is(t, "computer"@, 4, false) {
            if empty_struct_of(body) {
                Some(ToolRequestV::Computer)
            } else {
                None
            }
        } else if tag_is(t, "computer_use_preview"@, 5, false) {
            match computer_use_preview_tool_request_of(body) {
                Some(x) => Some(ToolRequestV::ComputerUsePreview(x)),
                None => None,
            }
        } else if tag_is(t, "code_interpreter"@, 6, false) {
            match code_interpreter_tool_request_of(body) {
                Some(x) => Some(ToolRequestV::CodeInterpreter(x)),
                None => None,
            }
        } else if tag_is(t, "image_generation"@, 7, false) {
            match image_generation_tool_request_of(body) {
                Some(x) => Some(ToolRequestV::ImageGeneration(x)),
                None => None,
            }
        } else if tag_is(t, "mcp"@, 8, false) {
            match mcp_tool_request_of(body) {
                Some(x) => Some(ToolRequestV::Mcp(x)),
                None => None,
            }
        } else if tag_is(t, "local_shell"@, 9, false) {
            if empty_struct_of(body) {
                Some(ToolRequestV::LocalShell)
            } else {
                None
            }
        } else if tag_is(t, "shell"@, 10, false) {
            match shell_tool_request_of(body) {
                Some(x) => Some(ToolRequestV::Shell(x)),
                None => None,
            }
        } else if tag_is(t, "custom"@, 11, false) {
            match custom_tool_request_of(body) {
                Some(x) => Some(ToolRequestV::Custom(x)),
                None => None,
            }
        } else if tag_is(t, "namespace"@, 12, false) {
            match namespace_tool_request_of(body) {
                Some(x) => Some(ToolRequestV::Namespace(x)),
                None => None,
            }
        } else if tag_is(t, "tool_search"@, 13, false) {
            match search_tool_request_of(body) {
                Some(x) => Some(ToolRequestV::ToolSearch(x)),
                None => None,
            }
        } else if tag_is(t, "apply_patch"@, 14, false) {
            if empty_struct_of(body) {
                Some(ToolRequestV::ApplyPatch)
            } else {
                None
            }
        } else {
            None
        },
    }
}

impl ToolRequest {
    /// Reads a tool of a request (see [`tool_request_of`]).
    pub fn from_json(v: &Json) -> (r: Option<ToolRequest>)
        ensures
            o_view(r) == tool_request_of(v@),
    {
        let (t, body) = match split_tag(v) {
            Some(p) => p,
            None => {
                return None;
            },
        };
        if tag_matches(&t, "function", 0, false) {
            match FunctionToolRequest::from_json(&body) {
                Some(x) => Some(ToolRequest::Function(x)),
                None => None,
            }
        } else if tag_matches(&t, "file_search", 1, false) {
            match FileSearchToolRequest::from_json(&body) {
                Some(x) => Some(ToolRequest::FileSearch(x)),
                None => None,
            }
        } else if tag_matches(&t, "web_search", 2, false) {
            match WebSearchToolRequest::from_json(&body) {
                Some(x) => Some(ToolRequest::WebSearch(x)),
                None => None,
            }
        } else if tag_matches(&t, "web_search_preview", 3, false) {
            match WebSearchPreviewToolRequest::from_json(&body) {
                Some(x) => Some(ToolRequest::WebSearchPreview(x)),
                None => None,
            }
        } else if tag_matches(&t, "computer", 4, false) {
            if struct_form_ok(&body, 0, 0) {
                Some(ToolRequest::Computer(ComputerToolRequest {  }))
            } else {
                None
            }
        } else if tag_matches(&t, "computer_use_preview", 5, false) {
            match ComputerUsePreviewToolRequest::from_json(&body) {
                Some(x) => Some(ToolRequest::ComputerUsePreview(x)),
                None => None,
            }
        } else if tag_matches(&t, "code_interpreter", 6, false) {
            match CodeInterpreterToolRequest::from_json(&body) {
                Some(x) => Some(ToolRequest::CodeInterpreter(x)),
                None => None,
            }
        } else if tag_matches(&t, "image_generation", 7, false) {
            match ImageGenerationToolRequest::from_json(&body) {
                Some(x) => Some(ToolRequest::ImageGeneration(x)),
                None => None,
            }
        } else if tag_matches(&t, "mcp", 8, false) {
            match McpToolRequest::from_json(&body) {
                Some(x) => Some(ToolRequest::Mcp(x)),
                None => None,
            }
        } else if tag_matches(&t, "local_shell", 9, false) {
            if struct_form_ok(&body, 0, 0) {
                Some(ToolRequest::LocalShell(LocalShellToolRequest {  }))
            } else {
                None
            }
        } else if tag_matches(&t, "shell", 10, false) {
            match ShellToolRequest::from_json(&body) {
                Some(x) => Some(ToolRequest::Shell(x)),
                None => None,
            }
        } else if tag_matches(&t, "custom", 11, false) {
            match CustomToolRequest::from_json(&body) {
                Some(x) => Some(ToolRequest::Custom(x)),
                None => None,
            }
        } else if tag_matches(&t, "namespace", 12, false) {
            match NamespaceToolRequest::from_json(&body) {
                Some(x) => Some(ToolRequest::Namespace(x)),
                None => None,
            }
        } else if tag_matches(&t, "tool_search", 13, false) {
            match SearchToolRequest::from_json(&body) {
                Some(x) => Some(ToolRequest::ToolSearch(x)),
                None => None,
            }
        } else if tag_matches(&t, "apply_patch", 14, false) {
            if struct_form_ok(&body, 0, 0) {
                Some(ToolRequest::ApplyPatch(ApplyPatchToolRequest {  }))
            } else {
                None
            }
        } else {
            None
        }
    }
}

} // verus!
