//! Words of the protocol that are not to be taken for one another.

use vstd::prelude::*;
use vstd::string::*;

verus! {

/// No method has another's name.
pub proof fn lemma_methods_differ()
    ensures
        "initialize"@ != "ping"@,
        "initialize"@ != "tools/list"@,
        "initialize"@ != "tools/call"@,
        "initialize"@ != "resources/list"@,
        "initialize"@ != "resources/templates/list"@,
        "initialize"@ != "resources/read"@,
        "initialize"@ != "prompts/list"@,
        "initialize"@ != "prompts/get"@,
        "initialize"@ != "logging/setLevel"@,
        "initialize"@ != "tasks/get"@,
        "initialize"@ != "tasks/result"@,
        "initialize"@ != "tasks/list"@,
        "initialize"@ != "tasks/cancel"@,
        "ping"@ != "tools/list"@,
        "ping"@ != "tools/call"@,
        "ping"@ != "resources/list"@,
        "ping"@ != "resources/templates/list"@,
        "ping"@ != "resources/read"@,
        "ping"@ != "prompts/list"@,
        "ping"@ != "prompts/get"@,
        "ping"@ != "logging/setLevel"@,
        "ping"@ != "tasks/get"@,
        "ping"@ != "tasks/result"@,
        "ping"@ != "tasks/list"@,
        "ping"@ != "tasks/cancel"@,
        "tools/list"@ != "tools/call"@,
        "tools/list"@ != "resources/list"@,
        "tools/list"@ != "resources/templates/list"@,
        "tools/list"@ != "resources/read"@,
        "tools/list"@ != "prompts/list"@,
        "tools/list"@ != "prompts/get"@,
        "tools/list"@ != "logging/setLevel"@,
        "tools/list"@ != "tasks/get"@,
        "tools/list"@ != "tasks/result"@,
        "tools/list"@ != "tasks/list"@,
        "tools/list"@ != "tasks/cancel"@,
        "tools/call"@ != "resources/list"@,
        "tools/call"@ != "resources/templates/list"@,
        "tools/call"@ != "resources/read"@,
        "tools/call"@ != "prompts/list"@,
        "tools/call"@ != "prompts/get"@,
        "tools/call"@ != "logging/setLevel"@,
        "tools/call"@ != "tasks/get"@,
        "tools/call"@ != "tasks/result"@,
        "tools/call"@ != "tasks/list"@,
        "tools/call"@ != "tasks/cancel"@,
        "resources/list"@ != "resources/templates/list"@,
        "resources/list"@ != "resources/read"@,
        "resources/list"@ != "prompts/list"@,
        "resources/list"@ != "prompts/get"@,
        "resources/list"@ != "logging/setLevel"@,
        "resources/list"@ != "tasks/get"@,
        "resources/list"@ != "tasks/result"@,
        "resources/list"@ != "tasks/list"@,
        "resources/list"@ != "tasks/cancel"@,
        "resources/templates/list"@ != "resources/read"@,
        "resources/templates/list"@ != "prompts/list"@,
        "resources/templates/list"@ != "prompts/get"@,
        "resources/templates/list"@ != "logging/setLevel"@,
        "resources/templates/list"@ != "tasks/get"@,
        "resources/templates/list"@ != "tasks/result"@,
        "resources/templates/list"@ != "tasks/list"@,
        "resources/templates/list"@ != "tasks/cancel"@,
        "resources/read"@ != "prompts/list"@,
        "resources/read"@ != "prompts/get"@,
        "resources/read"@ != "logging/setLevel"@,
        "resources/read"@ != "tasks/get"@,
        "resources/read"@ != "tasks/result"@,
        "resources/read"@ != "tasks/list"@,
        "resources/read"@ != "tasks/cancel"@,
        "prompts/list"@ != "prompts/get"@,
        "prompts/list"@ != "logging/setLevel"@,
        "prompts/list"@ != "tasks/get"@,
        "prompts/list"@ != "tasks/result"@,
        "prompts/list"@ != "tasks/list"@,
        "prompts/list"@ != "tasks/cancel"@,
        "prompts/get"@ != "logging/setLevel"@,
        "prompts/get"@ != "tasks/get"@,
        "prompts/get"@ != "tasks/result"@,
        "prompts/get"@ != "tasks/list"@,
        "prompts/get"@ != "tasks/cancel"@,
        "logging/setLevel"@ != "tasks/get"@,
        "logging/setLevel"@ != "tasks/result"@,
        "logging/setLevel"@ != "tasks/list"@,
        "logging/setLevel"@ != "tasks/cancel"@,
        "tasks/get"@ != "tasks/result"@,
        "tasks/get"@ != "tasks/list"@,
        "tasks/get"@ != "tasks/cancel"@,
        "tasks/result"@ != "tasks/list"@,
        "tasks/result"@ != "tasks/cancel"@,
        "tasks/list"@ != "tasks/cancel"@,
{
    reveal_strlit("initialize");
    reveal_strlit("ping");
    reveal_strlit("tools/list");
    reveal_strlit("tools/call");
    reveal_strlit("resources/list");
    reveal_strlit("resources/templates/list");
    reveal_strlit("resources/read");
    reveal_strlit("prompts/list");
    reveal_strlit("prompts/get");
    reveal_strlit("logging/setLevel");
    reveal_strlit("tasks/get");
    reveal_strlit("tasks/result");
    reveal_strlit("tasks/list");
    reveal_strlit("tasks/cancel");
    assert("initialize"@.len() == 10);
    assert("ping"@.len() == 4);
    assert("tools/list"@.len() == 10);
    assert("tools/call"@.len() == 10);
    assert("resources/list"@.len() == 14);
    assert("resources/templates/list"@.len() == 24);
    assert("resources/read"@.len() == 14);
    assert("prompts/list"@.len() == 12);
    assert("prompts/get"@.len() == 11);
    assert("logging/setLevel"@.len() == 16);
    assert("tasks/get"@.len() == 9);
    assert("tasks/result"@.len() == 12);
    assert("tasks/list"@.len() == 10);
    assert("tasks/cancel"@.len() == 12);
    assert("initialize"@[0] != "tools/list"@[0]);
    assert("initialize"@[0] != "tools/call"@[0]);
    assert("initialize"@[0] != "tasks/list"@[0]);
    assert("tools/list"@[6] != "tools/call"@[6]);
    assert("tools/list"@[1] != "tasks/list"@[1]);
    assert("tools/call"@[1] != "tasks/list"@[1]);
    assert("resources/list"@[10] != "resources/read"@[10]);
    assert("prompts/list"@[0] != "tasks/result"@[0]);
    assert("prompts/list"@[0] != "tasks/cancel"@[0]);
    assert("tasks/result"@[6] != "tasks/cancel"@[6]);
}

/// The fields of a tool's result have different names.
pub proof fn lemma_result_keys_differ()
    ensures
        "content"@ != "structuredContent"@,
        "content"@ != "isError"@,
        "content"@ != "_meta"@,
        "content"@ != "type"@,
        "content"@ != "text"@,
        "structuredContent"@ != "isError"@,
        "structuredContent"@ != "_meta"@,
        "structuredContent"@ != "type"@,
        "structuredContent"@ != "text"@,
        "isError"@ != "_meta"@,
        "isError"@ != "type"@,
        "isError"@ != "text"@,
        "_meta"@ != "type"@,
        "_meta"@ != "text"@,
        "type"@ != "text"@,
{
    reveal_strlit("content");
    reveal_strlit("structuredContent");
    reveal_strlit("isError");
    reveal_strlit("_meta");
    reveal_strlit("type");
    reveal_strlit("text");
    assert("content"@.len() == 7);
    assert("structuredContent"@.len() == 17);
    assert("isError"@.len() == 7);
    assert("_meta"@.len() == 5);
    assert("type"@.len() == 4);
    assert("text"@.len() == 4);
    assert("content"@[0] != "isError"@[0]);
    assert("type"@[1] != "text"@[1]);
}

/// No level has another's name.
pub proof fn lemma_levels_differ()
    ensures
        "debug"@ != "info"@,
        "debug"@ != "notice"@,
        "debug"@ != "warning"@,
        "debug"@ != "error"@,
        "debug"@ != "critical"@,
        "debug"@ != "alert"@,
        "debug"@ != "emergency"@,
        "info"@ != "notice"@,
        "info"@ != "warning"@,
        "info"@ != "error"@,
        "info"@ != "critical"@,
        "info"@ != "alert"@,
        "info"@ != "emergency"@,
        "notice"@ != "warning"@,
        "notice"@ != "error"@,
        "notice"@ != "critical"@,
        "notice"@ != "alert"@,
        "notice"@ != "emergency"@,
        "warning"@ != "error"@,
        "warning"@ != "critical"@,
        "warning"@ != "alert"@,
        "warning"@ != "emergency"@,
        "error"@ != "critical"@,
        "error"@ != "alert"@,
        "error"@ != "emergency"@,
        "critical"@ != "alert"@,
        "critical"@ != "emergency"@,
        "alert"@ != "emergency"@,
{
    reveal_strlit("debug");
    reveal_strlit("info");
    reveal_strlit("notice");
    reveal_strlit("warning");
    reveal_strlit("error");
    reveal_strlit("critical");
    reveal_strlit("alert");
    reveal_strlit("emergency");
    assert("debug"@.len() == 5);
    assert("info"@.len() == 4);
    assert("notice"@.len() == 6);
    assert("warning"@.len() == 7);
    assert("error"@.len() == 5);
    assert("critical"@.len() == 8);
    assert("alert"@.len() == 5);
    assert("emergency"@.len() == 9);
    assert("debug"@[0] != "error"@[0]);
    assert("debug"@[0] != "alert"@[0]);
    assert("error"@[0] != "alert"@[0]);
}

/// The fields of a welcome have different names.
pub proof fn lemma_welcome_words_differ()
    ensures
        "protocolVersion"@ != "capabilities"@,
        "protocolVersion"@ != "serverInfo"@,
        "protocolVersion"@ != "instructions"@,
        "capabilities"@ != "serverInfo"@,
        "capabilities"@ != "instructions"@,
        "serverInfo"@ != "instructions"@,
{
    reveal_strlit("protocolVersion");
    reveal_strlit("capabilities");
    reveal_strlit("serverInfo");
    reveal_strlit("instructions");
    assert("protocolVersion"@.len() == 15);
    assert("capabilities"@.len() == 12);
    assert("serverInfo"@.len() == 10);
    assert("instructions"@.len() == 12);
    assert("capabilities"@[0] != "instructions"@[0]);
}

/// What is offered has different names.
pub proof fn lemma_offer_words_differ()
    ensures
        "tools"@ != "resources"@,
        "tools"@ != "prompts"@,
        "tools"@ != "logging"@,
        "tools"@ != "tasks"@,
        "tools"@ != "list"@,
        "tools"@ != "cancel"@,
        "tools"@ != "requests"@,
        "resources"@ != "prompts"@,
        "resources"@ != "logging"@,
        "resources"@ != "tasks"@,
        "resources"@ != "list"@,
        "resources"@ != "cancel"@,
        "resources"@ != "requests"@,
        "prompts"@ != "logging"@,
        "prompts"@ != "tasks"@,
        "prompts"@ != "list"@,
        "prompts"@ != "cancel"@,
        "prompts"@ != "requests"@,
        "logging"@ != "tasks"@,
        "logging"@ != "list"@,
        "logging"@ != "cancel"@,
        "logging"@ != "requests"@,
        "tasks"@ != "list"@,
        "tasks"@ != "cancel"@,
        "tasks"@ != "requests"@,
        "list"@ != "cancel"@,
        "list"@ != "requests"@,
        "cancel"@ != "requests"@,
{
    reveal_strlit("tools");
    reveal_strlit("resources");
    reveal_strlit("prompts");
    reveal_strlit("logging");
    reveal_strlit("tasks");
    reveal_strlit("list");
    reveal_strlit("cancel");
    reveal_strlit("requests");
    assert("tools"@.len() == 5);
    assert("resources"@.len() == 9);
    assert("prompts"@.len() == 7);
    assert("logging"@.len() == 7);
    assert("tasks"@.len() == 5);
    assert("list"@.len() == 4);
    assert("cancel"@.len() == 6);
    assert("requests"@.len() == 8);
    assert("tools"@[1] != "tasks"@[1]);
    assert("prompts"@[0] != "logging"@[0]);
}

/// What a server says of itself has different names.
pub proof fn lemma_info_words_differ()
    ensures
        "name"@ != "version"@,
        "name"@ != "title"@,
        "name"@ != "description"@,
        "name"@ != "icons"@,
        "name"@ != "websiteUrl"@,
        "version"@ != "title"@,
        "version"@ != "description"@,
        "version"@ != "icons"@,
        "version"@ != "websiteUrl"@,
        "title"@ != "description"@,
        "title"@ != "icons"@,
        "title"@ != "websiteUrl"@,
        "description"@ != "icons"@,
        "description"@ != "websiteUrl"@,
        "icons"@ != "websiteUrl"@,
{
    reveal_strlit("name");
    reveal_strlit("version");
    reveal_strlit("title");
    reveal_strlit("description");
    reveal_strlit("icons");
    reveal_strlit("websiteUrl");
    assert("name"@.len() == 4);
    assert("version"@.len() == 7);
    assert("title"@.len() == 5);
    assert("description"@.len() == 11);
    assert("icons"@.len() == 5);
    assert("websiteUrl"@.len() == 10);
    assert("title"@[0] != "icons"@[0]);
}

/// The fields of a refusal have different names.
pub proof fn lemma_refusal_words_differ()
    ensures
        "jsonrpc"@ != "error"@,
        "jsonrpc"@ != "code"@,
        "jsonrpc"@ != "message"@,
        "error"@ != "code"@,
        "error"@ != "message"@,
        "code"@ != "message"@,
{
    reveal_strlit("jsonrpc");
    reveal_strlit("error");
    reveal_strlit("code");
    reveal_strlit("message");
    assert("jsonrpc"@.len() == 7);
    assert("error"@.len() == 5);
    assert("code"@.len() == 4);
    assert("message"@.len() == 7);
    assert("jsonrpc"@[0] != "message"@[0]);
}

/// The fields of a message have different names.
pub proof fn lemma_message_words_differ()
    ensures
        "jsonrpc"@ != "id"@,
        "jsonrpc"@ != "method"@,
        "jsonrpc"@ != "params"@,
        "jsonrpc"@ != "result"@,
        "jsonrpc"@ != "error"@,
        "jsonrpc"@ != "code"@,
        "jsonrpc"@ != "message"@,
        "jsonrpc"@ != "data"@,
        "id"@ != "method"@,
        "id"@ != "params"@,
        "id"@ != "result"@,
        "id"@ != "error"@,
        "id"@ != "code"@,
        "id"@ != "message"@,
        "id"@ != "data"@,
        "method"@ != "params"@,
        "method"@ != "result"@,
        "method"@ != "error"@,
        "method"@ != "code"@,
        "method"@ != "message"@,
        "method"@ != "data"@,
        "params"@ != "result"@,
        "params"@ != "error"@,
        "params"@ != "code"@,
        "params"@ != "message"@,
        "params"@ != "data"@,
        "result"@ != "error"@,
        "result"@ != "code"@,
        "result"@ != "message"@,
        "result"@ != "data"@,
        "error"@ != "code"@,
        "error"@ != "message"@,
        "error"@ != "data"@,
        "code"@ != "message"@,
        "code"@ != "data"@,
        "message"@ != "data"@,
{
    reveal_strlit("jsonrpc");
    reveal_strlit("id");
    reveal_strlit("method");
    reveal_strlit("params");
    reveal_strlit("result");
    reveal_strlit("error");
    reveal_strlit("code");
    reveal_strlit("message");
    reveal_strlit("data");
    assert("jsonrpc"@.len() == 7);
    assert("id"@.len() == 2);
    assert("method"@.len() == 6);
    assert("params"@.len() == 6);
    assert("result"@.len() == 6);
    assert("error"@.len() == 5);
    assert("code"@.len() == 4);
    assert("message"@.len() == 7);
    assert("data"@.len() == 4);
    assert("jsonrpc"@[0] != "message"@[0]);
    assert("method"@[0] != "params"@[0]);
    assert("method"@[0] != "result"@[0]);
    assert("params"@[0] != "result"@[0]);
    assert("code"@[0] != "data"@[0]);
}

/// The fields of a record have different names.
pub proof fn lemma_record_words_differ()
    ensures
        "level"@ != "logger"@,
        "level"@ != "data"@,
        "level"@ != "_meta"@,
        "logger"@ != "data"@,
        "logger"@ != "_meta"@,
        "data"@ != "_meta"@,
{
    reveal_strlit("level");
    reveal_strlit("logger");
    reveal_strlit("data");
    reveal_strlit("_meta");
    assert("level"@.len() == 5);
    assert("logger"@.len() == 6);
    assert("data"@.len() == 4);
    assert("_meta"@.len() == 5);
    assert("level"@[0] != "_meta"@[0]);
}

/// The fields of a report have different names.
pub proof fn lemma_progress_words_differ()
    ensures
        "progressToken"@ != "progress"@,
        "progressToken"@ != "total"@,
        "progressToken"@ != "_meta"@,
        "progress"@ != "total"@,
        "progress"@ != "_meta"@,
        "total"@ != "_meta"@,
{
    reveal_strlit("progressToken");
    reveal_strlit("progress");
    reveal_strlit("total");
    reveal_strlit("_meta");
    assert("progressToken"@.len() == 13);
    assert("progress"@.len() == 8);
    assert("total"@.len() == 5);
    assert("_meta"@.len() == 5);
    assert("total"@[0] != "_meta"@[0]);
}

/// The fields of a cancellation have different names.
pub proof fn lemma_cancel_words_differ()
    ensures
        "requestId"@ != "reason"@,
        "requestId"@ != "_meta"@,
        "reason"@ != "_meta"@,
{
    reveal_strlit("requestId");
    reveal_strlit("reason");
    reveal_strlit("_meta");
    assert("requestId"@.len() == 9);
    assert("reason"@.len() == 6);
    assert("_meta"@.len() == 5);
}

/// No kind has another's name.
pub proof fn lemma_kinds_differ()
    ensures
        "object"@ != "array"@,
        "object"@ != "string"@,
        "object"@ != "boolean"@,
        "object"@ != "null"@,
        "object"@ != "number"@,
        "object"@ != "integer"@,
        "array"@ != "string"@,
        "array"@ != "boolean"@,
        "array"@ != "null"@,
        "array"@ != "number"@,
        "array"@ != "integer"@,
        "string"@ != "boolean"@,
        "string"@ != "null"@,
        "string"@ != "number"@,
        "string"@ != "integer"@,
        "boolean"@ != "null"@,
        "boolean"@ != "number"@,
        "boolean"@ != "integer"@,
        "null"@ != "number"@,
        "null"@ != "integer"@,
        "number"@ != "integer"@,
{
    reveal_strlit("object");
    reveal_strlit("array");
    reveal_strlit("string");
    reveal_strlit("boolean");
    reveal_strlit("null");
    reveal_strlit("number");
    reveal_strlit("integer");
    assert("object"@.len() == 6);
    assert("array"@.len() == 5);
    assert("string"@.len() == 6);
    assert("boolean"@.len() == 7);
    assert("null"@.len() == 4);
    assert("number"@.len() == 6);
    assert("integer"@.len() == 7);
    assert("object"@[0] != "string"@[0]);
    assert("object"@[0] != "number"@[0]);
    assert("string"@[0] != "number"@[0]);
    assert("boolean"@[0] != "integer"@[0]);
}

/// No action has another's name.
pub proof fn lemma_actions_differ()
    ensures
        "accept"@ != "decline"@,
        "accept"@ != "cancel"@,
        "decline"@ != "cancel"@,
{
    reveal_strlit("accept");
    reveal_strlit("decline");
    reveal_strlit("cancel");
    assert("accept"@.len() == 6);
    assert("decline"@.len() == 7);
    assert("cancel"@.len() == 6);
    assert("accept"@[0] != "cancel"@[0]);
}

/// The words of pieces differ.
pub proof fn lemma_piece_words_differ()
    ensures
        "type"@ != "text"@,
        "type"@ != "tool_use"@,
        "type"@ != "tool_result"@,
        "type"@ != "id"@,
        "type"@ != "name"@,
        "type"@ != "input"@,
        "text"@ != "tool_use"@,
        "text"@ != "tool_result"@,
        "text"@ != "id"@,
        "text"@ != "name"@,
        "text"@ != "input"@,
        "tool_use"@ != "tool_result"@,
        "tool_use"@ != "id"@,
        "tool_use"@ != "name"@,
        "tool_use"@ != "input"@,
        "tool_result"@ != "id"@,
        "tool_result"@ != "name"@,
        "tool_result"@ != "input"@,
        "id"@ != "name"@,
        "id"@ != "input"@,
        "name"@ != "input"@,
{
    reveal_strlit("type");
    reveal_strlit("text");
    reveal_strlit("tool_use");
    reveal_strlit("tool_result");
    reveal_strlit("id");
    reveal_strlit("name");
    reveal_strlit("input");
    assert("type"@.len() == 4);
    assert("text"@.len() == 4);
    assert("tool_use"@.len() == 8);
    assert("tool_result"@.len() == 11);
    assert("id"@.len() == 2);
    assert("name"@.len() == 4);
    assert("input"@.len() == 5);
    assert("type"@[1] != "text"@[1]);
    assert("type"@[0] != "name"@[0]);
    assert("text"@[0] != "name"@[0]);
}

/// No method of HTTP has another's name.
pub proof fn lemma_http_methods_differ()
    ensures
        "GET"@ != "HEAD"@,
        "GET"@ != "POST"@,
        "GET"@ != "DELETE"@,
        "HEAD"@ != "POST"@,
        "HEAD"@ != "DELETE"@,
        "POST"@ != "DELETE"@,
{
    reveal_strlit("GET");
    reveal_strlit("HEAD");
    reveal_strlit("POST");
    reveal_strlit("DELETE");
    assert("GET"@.len() == 3);
    assert("HEAD"@.len() == 4);
    assert("POST"@.len() == 4);
    assert("DELETE"@.len() == 6);
    assert("HEAD"@[0] != "POST"@[0]);
}

/// The versions differ.
pub proof fn lemma_versions_differ()
    ensures
        "HTTP/1.0"@ != "HTTP/1.1"@,
{
    reveal_strlit("HTTP/1.0");
    reveal_strlit("HTTP/1.1");
    assert("HTTP/1.0"@.len() == 8);
    assert("HTTP/1.1"@.len() == 8);
    assert("HTTP/1.0"@[7] != "HTTP/1.1"@[7]);
}

/// These names differ.
pub proof fn lemma_words_of_a_tool_is_written_whole()
    ensures
        "name"@ != "title"@,
        "name"@ != "description"@,
        "name"@ != "inputSchema"@,
        "name"@ != "outputSchema"@,
        "name"@ != "annotations"@,
        "name"@ != "icons"@,
        "name"@ != "execution"@,
        "name"@ != "_meta"@,
        "title"@ != "description"@,
        "title"@ != "inputSchema"@,
        "title"@ != "outputSchema"@,
        "title"@ != "annotations"@,
        "title"@ != "icons"@,
        "title"@ != "execution"@,
        "title"@ != "_meta"@,
        "description"@ != "inputSchema"@,
        "description"@ != "outputSchema"@,
        "description"@ != "annotations"@,
        "description"@ != "icons"@,
        "description"@ != "execution"@,
        "description"@ != "_meta"@,
        "inputSchema"@ != "outputSchema"@,
        "inputSchema"@ != "annotations"@,
        "inputSchema"@ != "icons"@,
        "inputSchema"@ != "execution"@,
        "inputSchema"@ != "_meta"@,
        "outputSchema"@ != "annotations"@,
        "outputSchema"@ != "icons"@,
        "outputSchema"@ != "execution"@,
        "outputSchema"@ != "_meta"@,
        "annotations"@ != "icons"@,
        "annotations"@ != "execution"@,
        "annotations"@ != "_meta"@,
        "icons"@ != "execution"@,
        "icons"@ != "_meta"@,
        "execution"@ != "_meta"@,
{
    reveal_strlit("name");
    reveal_strlit("title");
    reveal_strlit("description");
    reveal_strlit("inputSchema");
    reveal_strlit("outputSchema");
    reveal_strlit("annotations");
    reveal_strlit("icons");
    reveal_strlit("execution");
    reveal_strlit("_meta");
    assert("name"@.len() == 4);
    assert("title"@.len() == 5);
    assert("description"@.len() == 11);
    assert("inputSchema"@.len() == 11);
    assert("outputSchema"@.len() == 12);
    assert("annotations"@.len() == 11);
    assert("icons"@.len() == 5);
    assert("execution"@.len() == 9);
    assert("_meta"@.len() == 5);
    assert("title"@[0] != "icons"@[0]);
    assert("title"@[0] != "_meta"@[0]);
    assert("description"@[0] != "inputSchema"@[0]);
    assert("description"@[0] != "annotations"@[0]);
    assert("inputSchema"@[0] != "annotations"@[0]);
    assert("icons"@[0] != "_meta"@[0]);
}

/// These names differ.
pub proof fn lemma_words_of_a_resource_is_written_whole()
    ensures
        "uri"@ != "name"@,
        "uri"@ != "title"@,
        "uri"@ != "description"@,
        "uri"@ != "mimeType"@,
        "uri"@ != "size"@,
        "uri"@ != "icons"@,
        "uri"@ != "annotations"@,
        "uri"@ != "_meta"@,
        "name"@ != "title"@,
        "name"@ != "description"@,
        "name"@ != "mimeType"@,
        "name"@ != "size"@,
        "name"@ != "icons"@,
        "name"@ != "annotations"@,
        "name"@ != "_meta"@,
        "title"@ != "description"@,
        "title"@ != "mimeType"@,
        "title"@ != "size"@,
        "title"@ != "icons"@,
        "title"@ != "annotations"@,
        "title"@ != "_meta"@,
        "description"@ != "mimeType"@,
        "description"@ != "size"@,
        "description"@ != "icons"@,
        "description"@ != "annotations"@,
        "description"@ != "_meta"@,
        "mimeType"@ != "size"@,
        "mimeType"@ != "icons"@,
        "mimeType"@ != "annotations"@,
        "mimeType"@ != "_meta"@,
        "size"@ != "icons"@,
        "size"@ != "annotations"@,
        "size"@ != "_meta"@,
        "icons"@ != "annotations"@,
        "icons"@ != "_meta"@,
        "annotations"@ != "_meta"@,
{
    reveal_strlit("uri");
    reveal_strlit("name");
    reveal_strlit("title");
    reveal_strlit("description");
    reveal_strlit("mimeType");
    reveal_strlit("size");
    reveal_strlit("icons");
    reveal_strlit("annotations");
    reveal_strlit("_meta");
    assert("uri"@.len() == 3);
    assert("name"@.len() == 4);
    assert("title"@.len() == 5);
    assert("description"@.len() == 11);
    assert("mimeType"@.len() == 8);
    assert("size"@.len() == 4);
    assert("icons"@.len() == 5);
    assert("annotations"@.len() == 11);
    assert("_meta"@.len() == 5);
    assert("name"@[0] != "size"@[0]);
    assert("title"@[0] != "icons"@[0]);
    assert("title"@[0] != "_meta"@[0]);
    assert("description"@[0] != "annotations"@[0]);
    assert("icons"@[0] != "_meta"@[0]);
}

/// These names differ.
pub proof fn lemma_words_of_a_template_is_written_whole()
    ensures
        "uriTemplate"@ != "name"@,
        "uriTemplate"@ != "title"@,
        "uriTemplate"@ != "description"@,
        "uriTemplate"@ != "mimeType"@,
        "name"@ != "title"@,
        "name"@ != "description"@,
        "name"@ != "mimeType"@,
        "title"@ != "description"@,
        "title"@ != "mimeType"@,
        "description"@ != "mimeType"@,
{
    reveal_strlit("uriTemplate");
    reveal_strlit("name");
    reveal_strlit("title");
    reveal_strlit("description");
    reveal_strlit("mimeType");
    assert("uriTemplate"@.len() == 11);
    assert("name"@.len() == 4);
    assert("title"@.len() == 5);
    assert("description"@.len() == 11);
    assert("mimeType"@.len() == 8);
    assert("uriTemplate"@[0] != "description"@[0]);
}

/// These names differ.
pub proof fn lemma_words_of_an_argument_is_written_whole()
    ensures
        "name"@ != "description"@,
        "name"@ != "required"@,
        "description"@ != "required"@,
{
    reveal_strlit("name");
    reveal_strlit("description");
    reveal_strlit("required");
    assert("name"@.len() == 4);
    assert("description"@.len() == 11);
    assert("required"@.len() == 8);
}

/// These names differ.
pub proof fn lemma_words_of_a_prompt_is_written_whole()
    ensures
        "name"@ != "title"@,
        "name"@ != "description"@,
        "name"@ != "arguments"@,
        "name"@ != "icons"@,
        "name"@ != "_meta"@,
        "title"@ != "description"@,
        "title"@ != "arguments"@,
        "title"@ != "icons"@,
        "title"@ != "_meta"@,
        "description"@ != "arguments"@,
        "description"@ != "icons"@,
        "description"@ != "_meta"@,
        "arguments"@ != "icons"@,
        "arguments"@ != "_meta"@,
        "icons"@ != "_meta"@,
{
    reveal_strlit("name");
    reveal_strlit("title");
    reveal_strlit("description");
    reveal_strlit("arguments");
    reveal_strlit("icons");
    reveal_strlit("_meta");
    assert("name"@.len() == 4);
    assert("title"@.len() == 5);
    assert("description"@.len() == 11);
    assert("arguments"@.len() == 9);
    assert("icons"@.len() == 5);
    assert("_meta"@.len() == 5);
    assert("title"@[0] != "icons"@[0]);
    assert("title"@[0] != "_meta"@[0]);
    assert("icons"@[0] != "_meta"@[0]);
}

/// These names differ.
pub proof fn lemma_words_of_a_request_for_a_completion_is_written_whole()
    ensures
        "messages"@ != "modelPreferences"@,
        "messages"@ != "systemPrompt"@,
        "messages"@ != "includeContext"@,
        "messages"@ != "temperature"@,
        "messages"@ != "maxTokens"@,
        "messages"@ != "stopSequences"@,
        "messages"@ != "metadata"@,
        "messages"@ != "tools"@,
        "messages"@ != "toolChoice"@,
        "modelPreferences"@ != "systemPrompt"@,
        "modelPreferences"@ != "includeContext"@,
        "modelPreferences"@ != "temperature"@,
        "modelPreferences"@ != "maxTokens"@,
        "modelPreferences"@ != "stopSequences"@,
        "modelPreferences"@ != "metadata"@,
        "modelPreferences"@ != "tools"@,
        "modelPreferences"@ != "toolChoice"@,
        "systemPrompt"@ != "includeContext"@,
        "systemPrompt"@ != "temperature"@,
        "systemPrompt"@ != "maxTokens"@,
        "systemPrompt"@ != "stopSequences"@,
        "systemPrompt"@ != "metadata"@,
        "systemPrompt"@ != "tools"@,
        "systemPrompt"@ != "toolChoice"@,
        "includeContext"@ != "temperature"@,
        "includeContext"@ != "maxTokens"@,
        "includeContext"@ != "stopSequences"@,
        "includeContext"@ != "metadata"@,
        "includeContext"@ != "tools"@,
        "includeContext"@ != "toolChoice"@,
        "temperature"@ != "maxTokens"@,
        "temperature"@ != "stopSequences"@,
        "temperature"@ != "metadata"@,
        "temperature"@ != "tools"@,
        "temperature"@ != "toolChoice"@,
        "maxTokens"@ != "stopSequences"@,
        "maxTokens"@ != "metadata"@,
        "maxTokens"@ != "tools"@,
        "maxTokens"@ != "toolChoice"@,
        "stopSequences"@ != "metadata"@,
        "stopSequences"@ != "tools"@,
        "stopSequences"@ != "toolChoice"@,
        "metadata"@ != "tools"@,
        "metadata"@ != "toolChoice"@,
        "tools"@ != "toolChoice"@,
{
    reveal_strlit("messages");
    reveal_strlit("modelPreferences");
    reveal_strlit("systemPrompt");
    reveal_strlit("includeContext");
    reveal_strlit("temperature");
    reveal_strlit("maxTokens");
    reveal_strlit("stopSequences");
    reveal_strlit("metadata");
    reveal_strlit("tools");
    reveal_strlit("toolChoice");
    assert("messages"@.len() == 8);
    assert("modelPreferences"@.len() == 16);
    assert("systemPrompt"@.len() == 12);
    assert("includeContext"@.len() == 14);
    assert("temperature"@.len() == 11);
    assert("maxTokens"@.len() == 9);
    assert("stopSequences"@.len() == 13);
    assert("metadata"@.len() == 8);
    assert("tools"@.len() == 5);
    assert("toolChoice"@.len() == 10);
    assert("messages"@[2] != "metadata"@[2]);
}

/// These names differ.
pub proof fn lemma_words_of_an_offered_tool_is_written_whole()
    ensures
        "name"@ != "description"@,
        "name"@ != "inputSchema"@,
        "description"@ != "inputSchema"@,
{
    reveal_strlit("name");
    reveal_strlit("description");
    reveal_strlit("inputSchema");
    assert("name"@.len() == 4);
    assert("description"@.len() == 11);
    assert("inputSchema"@.len() == 11);
    assert("description"@[0] != "inputSchema"@[0]);
}

/// These names differ.
pub proof fn lemma_words_of_a_turn_is_written_whole()
    ensures
        "role"@ != "content"@,
{
    reveal_strlit("role");
    reveal_strlit("content");
    assert("role"@.len() == 4);
    assert("content"@.len() == 7);
}

/// These names differ.
pub proof fn lemma_words_of_a_piece_of_text_is_written()
    ensures
        "type"@ != "text"@,
{
    reveal_strlit("type");
    reveal_strlit("text");
    assert("type"@.len() == 4);
    assert("text"@.len() == 4);
    assert("type"@[1] != "text"@[1]);
}

/// These names differ.
pub proof fn lemma_words_of_a_use_of_a_tool_is_written_whole()
    ensures
        "type"@ != "id"@,
        "type"@ != "name"@,
        "type"@ != "input"@,
        "id"@ != "name"@,
        "id"@ != "input"@,
        "name"@ != "input"@,
{
    reveal_strlit("type");
    reveal_strlit("id");
    reveal_strlit("name");
    reveal_strlit("input");
    assert("type"@.len() == 4);
    assert("id"@.len() == 2);
    assert("name"@.len() == 4);
    assert("input"@.len() == 5);
    assert("type"@[0] != "name"@[0]);
}

/// These names differ.
pub proof fn lemma_words_of_the_result_of_a_tool_is_written_whole()
    ensures
        "type"@ != "toolUseId"@,
        "type"@ != "content"@,
        "type"@ != "isError"@,
        "toolUseId"@ != "content"@,
        "toolUseId"@ != "isError"@,
        "content"@ != "isError"@,
{
    reveal_strlit("type");
    reveal_strlit("toolUseId");
    reveal_strlit("content");
    reveal_strlit("isError");
    assert("type"@.len() == 4);
    assert("toolUseId"@.len() == 9);
    assert("content"@.len() == 7);
    assert("isError"@.len() == 7);
    assert("content"@[0] != "isError"@[0]);
}

/// These names differ.
pub proof fn lemma_words_of_a_request_for_input_is_written_whole()
    ensures
        "mode"@ != "message"@,
        "mode"@ != "requestedSchema"@,
        "mode"@ != "url"@,
        "mode"@ != "elicitationId"@,
        "message"@ != "requestedSchema"@,
        "message"@ != "url"@,
        "message"@ != "elicitationId"@,
        "requestedSchema"@ != "url"@,
        "requestedSchema"@ != "elicitationId"@,
        "url"@ != "elicitationId"@,
{
    reveal_strlit("mode");
    reveal_strlit("message");
    reveal_strlit("requestedSchema");
    reveal_strlit("url");
    reveal_strlit("elicitationId");
    assert("mode"@.len() == 4);
    assert("message"@.len() == 7);
    assert("requestedSchema"@.len() == 15);
    assert("url"@.len() == 3);
    assert("elicitationId"@.len() == 13);
}

/// These names differ.
pub proof fn lemma_words_of_a_task_is_written_whole()
    ensures
        "taskId"@ != "status"@,
        "taskId"@ != "statusMessage"@,
        "taskId"@ != "createdAt"@,
        "taskId"@ != "lastUpdatedAt"@,
        "taskId"@ != "ttl"@,
        "taskId"@ != "pollInterval"@,
        "status"@ != "statusMessage"@,
        "status"@ != "createdAt"@,
        "status"@ != "lastUpdatedAt"@,
        "status"@ != "ttl"@,
        "status"@ != "pollInterval"@,
        "statusMessage"@ != "createdAt"@,
        "statusMessage"@ != "lastUpdatedAt"@,
        "statusMessage"@ != "ttl"@,
        "statusMessage"@ != "pollInterval"@,
        "createdAt"@ != "lastUpdatedAt"@,
        "createdAt"@ != "ttl"@,
        "createdAt"@ != "pollInterval"@,
        "lastUpdatedAt"@ != "ttl"@,
        "lastUpdatedAt"@ != "pollInterval"@,
        "ttl"@ != "pollInterval"@,
{
    reveal_strlit("taskId");
    reveal_strlit("status");
    reveal_strlit("statusMessage");
    reveal_strlit("createdAt");
    reveal_strlit("lastUpdatedAt");
    reveal_strlit("ttl");
    reveal_strlit("pollInterval");
    assert("taskId"@.len() == 6);
    assert("status"@.len() == 6);
    assert("statusMessage"@.len() == 13);
    assert("createdAt"@.len() == 9);
    assert("lastUpdatedAt"@.len() == 13);
    assert("ttl"@.len() == 3);
    assert("pollInterval"@.len() == 12);
    assert("taskId"@[0] != "status"@[0]);
    assert("statusMessage"@[0] != "lastUpdatedAt"@[0]);
}

/// These names differ.
pub proof fn lemma_words_of_a_page_of_tasks_is_written_whole()
    ensures
        "tasks"@ != "nextCursor"@,
{
    reveal_strlit("tasks");
    reveal_strlit("nextCursor");
    assert("tasks"@.len() == 5);
    assert("nextCursor"@.len() == 10);
}

} // verus!
