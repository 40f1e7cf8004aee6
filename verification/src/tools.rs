//! The tools that a model can call, and their schemas.

use vstd::prelude::*;
use crate::order;
use crate::order::sorted;
use crate::text;
use crate::text::{contains_text, same};
use crate::words;

verus! {

/// The work that a tool does.
#[derive(Clone, Copy, PartialEq, Eq, Structural, Debug)]
pub enum ToolKind {
    GithubPullRequest,
    GithubPullRequestPatch,
    ReadFile,
    DeletePath,
    WriteFile,
    PatchFile,
    Glob,
    GrepInCurrentDirectory,
    GithubIssue,
    GithubIssueComments,
    GithubIssues,
    GithubPullRequests,
    AgentCreate,
    AgentDelete,
    AgentList,
    AgentGet,
    AgentDataSet,
    AgentDataGet,
    AgentDataDelete,
    AgentDataList,
    TaskCreateCron,
    TaskCreateOneshot,
    TaskDelete,
    TaskList,
    TaskGet,
    TaskSetEnabled,
    TaskPending,
    SendMessage,
    SpawnAgent,
    FetchWebContent,
    RunCommand,
}

pub const GITHUB_PULL_REQUEST_SCHEMA: &'static str = r#"
        {
            "type": "function",
            "function": {
                "name": "github_pull_request",
                "description": "Get information about a github pull request.",
                "parameters": {
                    "type": "object",
                    "properties": {
                        "repo": {
                            "type": "string",
                            "description": "github repo name, e.g. owner/repo"
                        },
                        "pull_request": {
                            "type": "number",
                            "description": "number of the pull request"
                        }
                    },
                    "required": [
                        "repo",
                        "pull_request"
                    ],
                    "additionalProperties": false
                }
            }
        }
"#;

pub const GITHUB_PULL_REQUEST_PATCH_SCHEMA: &'static str = r#"
        {
            "type": "function",
            "function": {
                "name": "github_pull_request_patch",
                "description": "Get the raw patch for a github pull request.",
                "parameters": {
                    "type": "object",
                    "properties": {
                        "repo": {
                            "type": "string",
                            "description": "github repo name, e.g. owner/repo"
                        },
                        "pull_request": {
                            "type": "number",
                            "description": "number of the pull request"
                        }
                    },
                    "required": [
                        "repo",
                        "pull_request"
                    ],
                    "additionalProperties": false
                }
            }
        }
"#;

pub const READ_FILE_SCHEMA: &'static str = r#"
        {
            "type": "function",
            "function": {
                "name": "read_file",
                "description": "Get the content of a file stored in the repository. Returns JSON with 'content' field containing file content and 'total_lines' field with the number of lines on success, or 'error' field with error message on failure.",
                "parameters": {
                    "type": "object",
                    "properties": {
                        "path": {
                            "type": "string",
                            "description": "path of the file under the repository, e.g. src/main.rs"
                        },
                        "start_line": {
                            "type": "integer",
                            "description": "First line to read, counted from 1. Optional."
                        },
                        "end_line": {
                            "type": "integer",
                            "description": "Last line to read, counted from 1. Optional."
                        }
                    },
                    "required": [
                        "path"
                    ],
                    "additionalProperties": false
                }
            }
        }
"#;

pub const DELETE_PATH_SCHEMA: &'static str = r#"
        {
            "type": "function",
            "function": {
                "name": "delete_path",
                "description": "Delete a file or a directory under the current directory.",
                "parameters": {
                    "type": "object",
                    "properties": {
                        "path": {
                            "type": "string",
                            "description": "path of the file under the current directory"
                        }
                    },
                    "required": [
                        "path"
                    ],
                    "additionalProperties": false
                }
            }
        }
"#;

pub const WRITE_FILE_SCHEMA: &'static str = r#"
        {
            "type": "function",
            "function": {
                "name": "write_file",
                "description": "Create or replace the content of a file, or partially edit it. For full writes, provide path and content. For partial edits, use one of: (1) offset+length for byte-level patching, (2) start_line+end_line for line-range replacement, or (3) old_content for search-and-replace. Only one partial edit mode can be used at a time. Partial edits require the file to already exist.",
                "parameters": {
                    "type": "object",
                    "properties": {
                        "path": {
                            "type": "string",
                            "description": "path of the file under the repository, e.g. src/main.rs"
                        },
                        "content": {
                            "type": "string",
                            "description": "the file content for full writes, or the replacement text for partial edits"
                        },
                        "mode": {
                            "type": "string",
                            "description": "file permissions mode in octal format (e.g., '0644', '0755', '0600'). Defaults to '0644' for regular files. Use '0755' for executable files.",
                            "default": "0644"
                        },
                        "offset": {
                            "type": "integer",
                            "description": "byte offset (0-based) to start the partial write. Requires 'length'. Cannot be combined with start_line or old_content."
                        },
                        "length": {
                            "type": "integer",
                            "description": "number of bytes to replace starting from 'offset'. The replaced region is substituted with 'content'."
                        },
                        "start_line": {
                            "type": "integer",
                            "description": "1-based line number to start replacing. Requires 'end_line'. Cannot be combined with offset or old_content."
                        },
                        "end_line": {
                            "type": "integer",
                            "description": "1-based line number to stop replacing (inclusive). Lines from start_line to end_line are replaced with 'content'."
                        },
                        "old_content": {
                            "type": "string",
                            "description": "exact text to find in the file and replace with 'content'. Must match exactly once unless replace_all is true. Cannot be combined with offset or start_line."
                        },
                        "replace_all": {
                            "type": "boolean",
                            "description": "if true, replace all occurrences of old_content. Defaults to false (requires unique match)."
                        }
                    },
                    "required": [
                        "path",
                        "content"
                    ],
                    "additionalProperties": false
                }
            }
        }
"#;

pub const PATCH_FILE_SCHEMA: &'static str = r#"
        {
            "type": "function",
            "function": {
                "name": "patch_file",
                "description": "Apply one or more search-and-replace edits to an existing file in a single call. Prefer this over write_file for changing several places in a file: the edits are applied in order (each one sees the result of the previous ones), validated together, and either all applied or none, and only the changed bytes are rewritten. Each old_content must match exactly once unless replace_all is true.",
                "parameters": {
                    "type": "object",
                    "properties": {
                        "path": {
                            "type": "string",
                            "description": "path of the existing file under the repository, e.g. src/main.rs"
                        },
                        "edits": {
                            "type": "array",
                            "description": "the edits to apply, in order",
                            "minItems": 1,
                            "items": {
                                "type": "object",
                                "properties": {
                                    "old_content": {
                                        "type": "string",
                                        "description": "exact, non-empty text to find in the file"
                                    },
                                    "new_content": {
                                        "type": "string",
                                        "description": "text that replaces old_content (may be empty to delete it)"
                                    },
                                    "replace_all": {
                                        "type": "boolean",
                                        "description": "if true, replace every occurrence of old_content. Defaults to false (requires a unique match)."
                                    }
                                },
                                "required": [
                                    "old_content",
                                    "new_content"
                                ],
                                "additionalProperties": false
                            }
                        }
                    },
                    "required": [
                        "path",
                        "edits"
                    ],
                    "additionalProperties": false
                }
            }
        }
"#;

pub const GLOB_SCHEMA: &'static str = r#"
        {
            "type": "function",
            "function": {
                "name": "glob",
                "description": "Find files matching a glob pattern in the current directory. Supports patterns like '*.rs', '**/*.txt', 'src/**/*.rs', etc. Cannot access parent directories or absolute paths for security.",
                "parameters": {
                    "type": "object",
                    "properties": {
                        "pattern": {
                            "type": "string",
                            "description": "The glob pattern to match files against (e.g., '*.rs', '**/*.txt', 'src/**/*.rs'). Cannot contain '../' or start with '/' for security."
                        }
                    },
                    "required": [
                        "pattern"
                    ],
                    "additionalProperties": false
                }
            }
        }
"#;

pub const GREP_IN_CURRENT_DIRECTORY_SCHEMA: &'static str = r#"
        {
            "type": "function",
            "function": {
                "name": "grep_in_current_directory",
                "description": "Grep for a pattern in the current directory.",
                "parameters": {
                    "type": "object",
                    "properties": {
                        "pattern": {
                            "type": "string",
                            "description": "The pattern to search for."
                        }
                    },
                    "required": [
                        "pattern"
                    ],
                    "additionalProperties": false
                }
            }
        }
"#;

pub const GITHUB_ISSUE_SCHEMA: &'static str = r#"
        {
            "type": "function",
            "function": {
                "name": "github_issue",
                "description": "Get the github issue description.",
                "parameters": {
                    "type": "object",
                    "properties": {
                        "repo": {
                            "type": "string",
                            "description": "github repo name, e.g. owner/repo"
                        },
                        "issue": {
                            "type": "number",
                            "description": "number of the github issue"
                        }
                    },
                    "required": [
                        "repo",
                        "issue"
                    ],
                    "additionalProperties": false
                }
            }
        }
"#;

pub const GITHUB_ISSUE_COMMENTS_SCHEMA: &'static str = r#"
        {
            "type": "function",
            "function": {
                "name": "github_issue_comments",
                "description": "Get the comments associated with the github issue.",
                "parameters": {
                    "type": "object",
                    "properties": {
                        "repo": {
                            "type": "string",
                            "description": "github repo name, e.g. owner/repo"
                        },
                        "issue": {
                            "type": "number",
                            "description": "number of the github issue"
                        }
                    },
                    "required": [
                        "repo",
                        "issue"
                    ],
                    "additionalProperties": false
                }
            }
        }
"#;

pub const GITHUB_ISSUES_SCHEMA: &'static str = r#"
        {
            "type": "function",
            "function": {
                "name": "github_issues",
                "description": "Get issues from a GitHub repository that have been updated within the last specified number of days.",
                "parameters": {
                    "type": "object",
                    "properties": {
                        "repo": {
                            "type": "string",
                            "description": "github repo name, e.g. owner/repo"
                        },
                        "days": {
                            "type": "number",
                            "description": "number of days to look back for updated issues"
                        }
                    },
                    "required": [
                        "repo",
                        "days"
                    ],
                    "additionalProperties": false
                }
            }
        }
"#;

pub const GITHUB_PULL_REQUESTS_SCHEMA: &'static str = r#"
        {
            "type": "function",
            "function": {
                "name": "github_pull_requests",
                "description": "Get pull requests from a GitHub repository that have been updated within the last specified number of days.",
                "parameters": {
                    "type": "object",
                    "properties": {
                        "repo": {
                            "type": "string",
                            "description": "github repo name, e.g. owner/repo"
                        },
                        "days": {
                            "type": "number",
                            "description": "number of days to look back for updated pull requests"
                        }
                    },
                    "required": [
                        "repo",
                        "days"
                    ],
                    "additionalProperties": false
                }
            }
        }
"#;

pub const AGENT_CREATE_SCHEMA: &'static str = r#"
        {
            "type": "function",
            "function": {
                "name": "agent_create",
                "description": "Create a new named agent in the database for organizing tasks and storing data.",
                "parameters": {
                    "type": "object",
                    "properties": {
                        "name": {
                            "type": "string",
                            "description": "Unique name for the agent"
                        },
                        "description": {
                            "type": "string",
                            "description": "Optional description of the agent's purpose"
                        }
                    },
                    "required": [
                        "name"
                    ],
                    "additionalProperties": false
                }
            }
        }
"#;

pub const AGENT_DELETE_SCHEMA: &'static str = r#"
        {
            "type": "function",
            "function": {
                "name": "agent_delete",
                "description": "Delete an agent and all its associated data from the database.",
                "parameters": {
                    "type": "object",
                    "properties": {
                        "name": {
                            "type": "string",
                            "description": "Name of the agent to delete"
                        }
                    },
                    "required": [
                        "name"
                    ],
                    "additionalProperties": false
                }
            }
        }
"#;

pub const AGENT_LIST_SCHEMA: &'static str = r#"
        {
            "type": "function",
            "function": {
                "name": "agent_list",
                "description": "List all agents in the database.",
                "parameters": {
                    "type": "object",
                    "properties": {},
                    "required": [],
                    "additionalProperties": false
                }
            }
        }
"#;

pub const AGENT_GET_SCHEMA: &'static str = r#"
        {
            "type": "function",
            "function": {
                "name": "agent_get",
                "description": "Get details of a specific agent by name.",
                "parameters": {
                    "type": "object",
                    "properties": {
                        "name": {
                            "type": "string",
                            "description": "Name of the agent to retrieve"
                        }
                    },
                    "required": [
                        "name"
                    ],
                    "additionalProperties": false
                }
            }
        }
"#;

pub const AGENT_DATA_SET_SCHEMA: &'static str = r#"
        {
            "type": "function",
            "function": {
                "name": "agent_data_set",
                "description": "Store a key-value pair for an agent. Overwrites existing value if key exists.",
                "parameters": {
                    "type": "object",
                    "properties": {
                        "agent": {
                            "type": "string",
                            "description": "Name of the agent"
                        },
                        "key": {
                            "type": "string",
                            "description": "The key to store"
                        },
                        "value": {
                            "type": "string",
                            "description": "The value to associate with the key"
                        }
                    },
                    "required": [
                        "agent",
                        "key",
                        "value"
                    ],
                    "additionalProperties": false
                }
            }
        }
"#;

pub const AGENT_DATA_GET_SCHEMA: &'static str = r#"
        {
            "type": "function",
            "function": {
                "name": "agent_data_get",
                "description": "Retrieve the value for a key stored for an agent.",
                "parameters": {
                    "type": "object",
                    "properties": {
                        "agent": {
                            "type": "string",
                            "description": "Name of the agent"
                        },
                        "key": {
                            "type": "string",
                            "description": "The key to retrieve"
                        }
                    },
                    "required": [
                        "agent",
                        "key"
                    ],
                    "additionalProperties": false
                }
            }
        }
"#;

pub const AGENT_DATA_DELETE_SCHEMA: &'static str = r#"
        {
            "type": "function",
            "function": {
                "name": "agent_data_delete",
                "description": "Delete a key-value pair for an agent.",
                "parameters": {
                    "type": "object",
                    "properties": {
                        "agent": {
                            "type": "string",
                            "description": "Name of the agent"
                        },
                        "key": {
                            "type": "string",
                            "description": "The key to delete"
                        }
                    },
                    "required": [
                        "agent",
                        "key"
                    ],
                    "additionalProperties": false
                }
            }
        }
"#;

pub const AGENT_DATA_LIST_SCHEMA: &'static str = r#"
        {
            "type": "function",
            "function": {
                "name": "agent_data_list",
                "description": "List all key-value pairs stored for an agent.",
                "parameters": {
                    "type": "object",
                    "properties": {
                        "agent": {
                            "type": "string",
                            "description": "Name of the agent"
                        }
                    },
                    "required": [
                        "agent"
                    ],
                    "additionalProperties": false
                }
            }
        }
"#;

pub const TASK_CREATE_CRON_SCHEMA: &'static str = r#"
        {
            "type": "function",
            "function": {
                "name": "task_create_cron",
                "description": "Create a recurring scheduled task using a cron expression. Uses 7-field cron format: 'sec min hour day_of_month month day_of_week year'. Example: '0 30 9 * * Mon-Fri *' means 9:30 AM every weekday. The command is sent to the AI when the task fires.",
                "parameters": {
                    "type": "object",
                    "properties": {
                        "name": {
                            "type": "string",
                            "description": "Name for the task"
                        },
                        "cron_expression": {
                            "type": "string",
                            "description": "7-field cron expression: sec min hour day_of_month month day_of_week year"
                        },
                        "command": {
                            "type": "string",
                            "description": "JSON tool call to execute when the task fires, e.g. {\"tool\": \"run_command\", \"arguments\": {\"command\": \"echo hello\"}}"
                        },
                        "description": {
                            "type": "string",
                            "description": "Optional description of what the task does"
                        },
                        "agent_name": {
                            "type": "string",
                            "description": "Optional agent to associate the task with"
                        },
                        "max_runs": {
                            "type": "integer",
                            "description": "Maximum number of times the task will run before auto-disabling. Omit for unlimited."
                        }
                    },
                    "required": [
                        "name",
                        "cron_expression",
                        "command"
                    ],
                    "additionalProperties": false
                }
            }
        }
"#;

pub const TASK_CREATE_ONESHOT_SCHEMA: &'static str = r#"
        {
            "type": "function",
            "function": {
                "name": "task_create_oneshot",
                "description": "Create a one-shot scheduled task that runs once. Use delay_seconds for relative timing (preferred) or run_at for absolute. The command is sent to the AI when the task fires.",
                "parameters": {
                    "type": "object",
                    "properties": {
                        "name": {
                            "type": "string",
                            "description": "Name for the task"
                        },
                        "command": {
                            "type": "string",
                            "description": "JSON tool call to execute when the task fires, e.g. {\"tool\": \"run_command\", \"arguments\": {\"command\": \"echo hello\"}}"
                        },
                        "delay_seconds": {
                            "type": "number",
                            "description": "Number of seconds from now to fire the task (preferred over run_at)"
                        },
                        "run_at": {
                            "type": "string",
                            "description": "Absolute time in RFC 3339 format (e.g. '2025-12-31T23:59:59Z'). Use delay_seconds instead when possible."
                        },
                        "description": {
                            "type": "string",
                            "description": "Optional description of what the task does"
                        },
                        "agent_name": {
                            "type": "string",
                            "description": "Optional agent to associate the task with"
                        }
                    },
                    "required": [
                        "name",
                        "command"
                    ],
                    "additionalProperties": false
                }
            }
        }
"#;

pub const TASK_DELETE_SCHEMA: &'static str = r#"
        {
            "type": "function",
            "function": {
                "name": "task_delete",
                "description": "Delete a scheduled task by its ID.",
                "parameters": {
                    "type": "object",
                    "properties": {
                        "id": {
                            "type": "number",
                            "description": "ID of the task to delete"
                        }
                    },
                    "required": [
                        "id"
                    ],
                    "additionalProperties": false
                }
            }
        }
"#;

pub const TASK_LIST_SCHEMA: &'static str = r#"
        {
            "type": "function",
            "function": {
                "name": "task_list",
                "description": "List all scheduled tasks, optionally filtered by agent name.",
                "parameters": {
                    "type": "object",
                    "properties": {
                        "agent_name": {
                            "type": "string",
                            "description": "Optional agent name to filter tasks by"
                        }
                    },
                    "required": [],
                    "additionalProperties": false
                }
            }
        }
"#;

pub const TASK_GET_SCHEMA: &'static str = r#"
        {
            "type": "function",
            "function": {
                "name": "task_get",
                "description": "Get details of a specific scheduled task by its ID.",
                "parameters": {
                    "type": "object",
                    "properties": {
                        "id": {
                            "type": "number",
                            "description": "ID of the task to retrieve"
                        }
                    },
                    "required": [
                        "id"
                    ],
                    "additionalProperties": false
                }
            }
        }
"#;

pub const TASK_SET_ENABLED_SCHEMA: &'static str = r#"
        {
            "type": "function",
            "function": {
                "name": "task_set_enabled",
                "description": "Enable or disable a scheduled task.",
                "parameters": {
                    "type": "object",
                    "properties": {
                        "id": {
                            "type": "number",
                            "description": "ID of the task"
                        },
                        "enabled": {
                            "type": "boolean",
                            "description": "true to enable, false to disable"
                        }
                    },
                    "required": [
                        "id",
                        "enabled"
                    ],
                    "additionalProperties": false
                }
            }
        }
"#;

pub const TASK_PENDING_SCHEMA: &'static str = r#"
        {
            "type": "function",
            "function": {
                "name": "task_pending",
                "description": "List all enabled scheduled tasks whose next_run_at is in the past (i.e. tasks that are due to run).",
                "parameters": {
                    "type": "object",
                    "properties": {},
                    "required": [],
                    "additionalProperties": false
                }
            }
        }
"#;

pub const SEND_MESSAGE_SCHEMA: &'static str = r#"
        {
            "type": "function",
            "function": {
                "name": "send_message",
                "description": "Send a message to another agent. The message will appear in the target agent's session and trigger a response.",
                "parameters": {
                    "type": "object",
                    "properties": {
                        "to": {
                            "type": "string",
                            "description": "Name of the target agent to send the message to"
                        },
                        "message": {
                            "type": "string",
                            "description": "The message content to send"
                        }
                    },
                    "required": [
                        "to",
                        "message"
                    ],
                    "additionalProperties": false
                }
            }
        }
"#;

pub const SPAWN_AGENT_SCHEMA: &'static str = r#"
        {
            "type": "function",
            "function": {
                "name": "spawn_agent",
                "description": "Spawn a sub-agent to work on a task in parallel. The sub-agent runs in the background and its result will be delivered asynchronously. You can spawn multiple sub-agents at once for parallel work.",
                "parameters": {
                    "type": "object",
                    "properties": {
                        "name": {
                            "type": "string",
                            "description": "Name for the sub-agent (used for display and identification)"
                        },
                        "prompt": {
                            "type": "string",
                            "description": "The task or question for the sub-agent to work on"
                        }
                    },
                    "required": [
                        "name",
                        "prompt"
                    ],
                    "additionalProperties": false
                }
            }
        }
"#;

pub const FETCH_WEB_CONTENT_SCHEMA: &'static str = r#"
        {
            "type": "function",
            "function": {
                "name": "fetch_web_content",
                "description": "Fetch content from a web URL. Returns JSON with URL, status code, content type, headers, and the actual content. Supports HTTP/HTTPS URLs with configurable timeout and redirect handling.",
                "parameters": {
                    "type": "object",
                    "properties": {
                        "url": {
                            "type": "string",
                            "description": "The HTTP/HTTPS URL to fetch content from"
                        },
                        "timeout_seconds": {
                            "type": "number",
                            "description": "Request timeout in seconds (default: 30)"
                        },
                        "follow_redirects": {
                            "type": "boolean",
                            "description": "Whether to follow HTTP redirects (default: true)"
                        },
                        "max_content_length": {
                            "type": "number",
                            "description": "Maximum content length in bytes (default: 10MB)"
                        }
                    },
                    "required": [
                        "url"
                    ],
                    "additionalProperties": false
                }
            }
        }
"#;

pub const RUN_COMMAND_SCHEMA: &'static str = r#"
        {
            "type": "function",
            "function": {
                "name": "run_command",
                "description": "Run a command and return results in JSON format. Returns {\"stdout\": string, \"stderr\": string, \"exit_code\": number|null, \"success\": boolean}. Commands do not fail on non-zero exit codes.",
                "parameters": {
                    "type": "object",
                    "properties": {
                        "command": {
                            "type": "string",
                            "description": "Command to execute, it must be the name of the executable only, e.g. /usr/bin/ls"
                        },
                        "args": {
                            "type": "array",
                            "items": {
                                "type": "string"
                            },
                            "description": "Additional arguments to pass to the command after the executable path, e.g. [\"-l\", \"-a\"]"
                        }
                    },
                    "required": [
                        "command"
                    ],
                    "additionalProperties": false
                }
            }
        }
"#;

/// A tool: its name, its work, and the schema that the model sees.
#[derive(Debug)]
pub struct ToolItem {
    pub name: String,
    pub kind: ToolKind,
    pub schema: String,
}

/// What a tool holds.
pub ghost struct Tool {
    pub name: Seq<char>,
    pub kind: ToolKind,
    pub schema: Seq<char>,
}

impl View for ToolItem {
    type V = Tool;

    open spec fn view(&self) -> Tool {
        Tool { name: self.name@, kind: self.kind, schema: self.schema@ }
    }
}

/// What a list of tools holds.
pub open spec fn tool_views(v: Seq<ToolItem>) -> Seq<Tool> {
    Seq::new(v.len(), |i: int| v[i]@)
}

/// The name of a kind of tool.
pub open spec fn kind_name(kind: ToolKind) -> Seq<char> {
    match kind {
        ToolKind::GithubPullRequest => "github_pull_request"@,
        ToolKind::GithubPullRequestPatch => "github_pull_request_patch"@,
        ToolKind::ReadFile => "read_file"@,
        ToolKind::DeletePath => "delete_path"@,
        ToolKind::WriteFile => "write_file"@,
        ToolKind::PatchFile => "patch_file"@,
        ToolKind::Glob => "glob"@,
        ToolKind::GrepInCurrentDirectory => "grep_in_current_directory"@,
        ToolKind::GithubIssue => "github_issue"@,
        ToolKind::GithubIssueComments => "github_issue_comments"@,
        ToolKind::GithubIssues => "github_issues"@,
        ToolKind::GithubPullRequests => "github_pull_requests"@,
        ToolKind::AgentCreate => "agent_create"@,
        ToolKind::AgentDelete => "agent_delete"@,
        ToolKind::AgentList => "agent_list"@,
        ToolKind::AgentGet => "agent_get"@,
        ToolKind::AgentDataSet => "agent_data_set"@,
        ToolKind::AgentDataGet => "agent_data_get"@,
        ToolKind::AgentDataDelete => "agent_data_delete"@,
        ToolKind::AgentDataList => "agent_data_list"@,
        ToolKind::TaskCreateCron => "task_create_cron"@,
        ToolKind::TaskCreateOneshot => "task_create_oneshot"@,
        ToolKind::TaskDelete => "task_delete"@,
        ToolKind::TaskList => "task_list"@,
        ToolKind::TaskGet => "task_get"@,
        ToolKind::TaskSetEnabled => "task_set_enabled"@,
        ToolKind::TaskPending => "task_pending"@,
        ToolKind::SendMessage => "send_message"@,
        ToolKind::SpawnAgent => "spawn_agent"@,
        ToolKind::FetchWebContent => "fetch_web_content"@,
        ToolKind::RunCommand => "run_command"@,
    }
}

/// The schema of a kind of tool.
pub open spec fn kind_schema(kind: ToolKind) -> Seq<char> {
    match kind {
        ToolKind::GithubPullRequest => GITHUB_PULL_REQUEST_SCHEMA@,
        ToolKind::GithubPullRequestPatch => GITHUB_PULL_REQUEST_PATCH_SCHEMA@,
        ToolKind::ReadFile => READ_FILE_SCHEMA@,
        ToolKind::DeletePath => DELETE_PATH_SCHEMA@,
        ToolKind::WriteFile => WRITE_FILE_SCHEMA@,
        ToolKind::PatchFile => PATCH_FILE_SCHEMA@,
        ToolKind::Glob => GLOB_SCHEMA@,
        ToolKind::GrepInCurrentDirectory => GREP_IN_CURRENT_DIRECTORY_SCHEMA@,
        ToolKind::GithubIssue => GITHUB_ISSUE_SCHEMA@,
        ToolKind::GithubIssueComments => GITHUB_ISSUE_COMMENTS_SCHEMA@,
        ToolKind::GithubIssues => GITHUB_ISSUES_SCHEMA@,
        ToolKind::GithubPullRequests => GITHUB_PULL_REQUESTS_SCHEMA@,
        ToolKind::AgentCreate => AGENT_CREATE_SCHEMA@,
        ToolKind::AgentDelete => AGENT_DELETE_SCHEMA@,
        ToolKind::AgentList => AGENT_LIST_SCHEMA@,
        ToolKind::AgentGet => AGENT_GET_SCHEMA@,
        ToolKind::AgentDataSet => AGENT_DATA_SET_SCHEMA@,
        ToolKind::AgentDataGet => AGENT_DATA_GET_SCHEMA@,
        ToolKind::AgentDataDelete => AGENT_DATA_DELETE_SCHEMA@,
        ToolKind::AgentDataList => AGENT_DATA_LIST_SCHEMA@,
        ToolKind::TaskCreateCron => TASK_CREATE_CRON_SCHEMA@,
        ToolKind::TaskCreateOneshot => TASK_CREATE_ONESHOT_SCHEMA@,
        ToolKind::TaskDelete => TASK_DELETE_SCHEMA@,
        ToolKind::TaskList => TASK_LIST_SCHEMA@,
        ToolKind::TaskGet => TASK_GET_SCHEMA@,
        ToolKind::TaskSetEnabled => TASK_SET_ENABLED_SCHEMA@,
        ToolKind::TaskPending => TASK_PENDING_SCHEMA@,
        ToolKind::SendMessage => SEND_MESSAGE_SCHEMA@,
        ToolKind::SpawnAgent => SPAWN_AGENT_SCHEMA@,
        ToolKind::FetchWebContent => FETCH_WEB_CONTENT_SCHEMA@,
        ToolKind::RunCommand => RUN_COMMAND_SCHEMA@,
    }
}

/// The name of a kind of tool.
pub fn tool_name(kind: ToolKind) -> (r: &'static str)
    ensures
        r@ == kind_name(kind),
{
    match kind {
        ToolKind::GithubPullRequest => "github_pull_request",
        ToolKind::GithubPullRequestPatch => "github_pull_request_patch",
        ToolKind::ReadFile => "read_file",
        ToolKind::DeletePath => "delete_path",
        ToolKind::WriteFile => "write_file",
        ToolKind::PatchFile => "patch_file",
        ToolKind::Glob => "glob",
        ToolKind::GrepInCurrentDirectory => "grep_in_current_directory",
        ToolKind::GithubIssue => "github_issue",
        ToolKind::GithubIssueComments => "github_issue_comments",
        ToolKind::GithubIssues => "github_issues",
        ToolKind::GithubPullRequests => "github_pull_requests",
        ToolKind::AgentCreate => "agent_create",
        ToolKind::AgentDelete => "agent_delete",
        ToolKind::AgentList => "agent_list",
        ToolKind::AgentGet => "agent_get",
        ToolKind::AgentDataSet => "agent_data_set",
        ToolKind::AgentDataGet => "agent_data_get",
        ToolKind::AgentDataDelete => "agent_data_delete",
        ToolKind::AgentDataList => "agent_data_list",
        ToolKind::TaskCreateCron => "task_create_cron",
        ToolKind::TaskCreateOneshot => "task_create_oneshot",
        ToolKind::TaskDelete => "task_delete",
        ToolKind::TaskList => "task_list",
        ToolKind::TaskGet => "task_get",
        ToolKind::TaskSetEnabled => "task_set_enabled",
        ToolKind::TaskPending => "task_pending",
        ToolKind::SendMessage => "send_message",
        ToolKind::SpawnAgent => "spawn_agent",
        ToolKind::FetchWebContent => "fetch_web_content",
        ToolKind::RunCommand => "run_command",
    }
}

/// The schema of a kind of tool.
pub fn tool_schema(kind: ToolKind) -> (r: &'static str)
    ensures
        r@ == kind_schema(kind),
{
    match kind {
        ToolKind::GithubPullRequest => GITHUB_PULL_REQUEST_SCHEMA,
        ToolKind::GithubPullRequestPatch => GITHUB_PULL_REQUEST_PATCH_SCHEMA,
        ToolKind::ReadFile => READ_FILE_SCHEMA,
        ToolKind::DeletePath => DELETE_PATH_SCHEMA,
        ToolKind::WriteFile => WRITE_FILE_SCHEMA,
        ToolKind::PatchFile => PATCH_FILE_SCHEMA,
        ToolKind::Glob => GLOB_SCHEMA,
        ToolKind::GrepInCurrentDirectory => GREP_IN_CURRENT_DIRECTORY_SCHEMA,
        ToolKind::GithubIssue => GITHUB_ISSUE_SCHEMA,
        ToolKind::GithubIssueComments => GITHUB_ISSUE_COMMENTS_SCHEMA,
        ToolKind::GithubIssues => GITHUB_ISSUES_SCHEMA,
        ToolKind::GithubPullRequests => GITHUB_PULL_REQUESTS_SCHEMA,
        ToolKind::AgentCreate => AGENT_CREATE_SCHEMA,
        ToolKind::AgentDelete => AGENT_DELETE_SCHEMA,
        ToolKind::AgentList => AGENT_LIST_SCHEMA,
        ToolKind::AgentGet => AGENT_GET_SCHEMA,
        ToolKind::AgentDataSet => AGENT_DATA_SET_SCHEMA,
        ToolKind::AgentDataGet => AGENT_DATA_GET_SCHEMA,
        ToolKind::AgentDataDelete => AGENT_DATA_DELETE_SCHEMA,
        ToolKind::AgentDataList => AGENT_DATA_LIST_SCHEMA,
        ToolKind::TaskCreateCron => TASK_CREATE_CRON_SCHEMA,
        ToolKind::TaskCreateOneshot => TASK_CREATE_ONESHOT_SCHEMA,
        ToolKind::TaskDelete => TASK_DELETE_SCHEMA,
        ToolKind::TaskList => TASK_LIST_SCHEMA,
        ToolKind::TaskGet => TASK_GET_SCHEMA,
        ToolKind::TaskSetEnabled => TASK_SET_ENABLED_SCHEMA,
        ToolKind::TaskPending => TASK_PENDING_SCHEMA,
        ToolKind::SendMessage => SEND_MESSAGE_SCHEMA,
        ToolKind::SpawnAgent => SPAWN_AGENT_SCHEMA,
        ToolKind::FetchWebContent => FETCH_WEB_CONTENT_SCHEMA,
        ToolKind::RunCommand => RUN_COMMAND_SCHEMA,
    }
}

/// The tools that are always there.
pub open spec fn safe_kinds() -> Seq<ToolKind> {
    seq![
        ToolKind::GithubPullRequest,
        ToolKind::GithubPullRequestPatch,
        ToolKind::ReadFile,
        ToolKind::DeletePath,
        ToolKind::WriteFile,
        ToolKind::PatchFile,
        ToolKind::Glob,
        ToolKind::GrepInCurrentDirectory,
        ToolKind::GithubIssue,
        ToolKind::GithubIssueComments,
        ToolKind::GithubIssues,
        ToolKind::GithubPullRequests,
        ToolKind::AgentCreate,
        ToolKind::AgentDelete,
        ToolKind::AgentList,
        ToolKind::AgentGet,
        ToolKind::AgentDataSet,
        ToolKind::AgentDataGet,
        ToolKind::AgentDataDelete,
        ToolKind::AgentDataList,
        ToolKind::TaskCreateCron,
        ToolKind::TaskCreateOneshot,
        ToolKind::TaskDelete,
        ToolKind::TaskList,
        ToolKind::TaskGet,
        ToolKind::TaskSetEnabled,
        ToolKind::TaskPending,
        ToolKind::SendMessage,
        ToolKind::SpawnAgent,
    ]
}

/// The tools that have to be allowed: they reach beyond the working directory.
pub open spec fn unsafe_kinds() -> Seq<ToolKind> {
    seq![ToolKind::FetchWebContent, ToolKind::RunCommand]
}

/// The tools that can be enabled.
pub open spec fn offered_kinds(unsafe_tools: bool) -> Seq<ToolKind> {
    if unsafe_tools {
        safe_kinds() + unsafe_kinds()
    } else {
        safe_kinds()
    }
}

fn kinds_offered(unsafe_tools: bool) -> (r: Vec<ToolKind>)
    ensures
        r@ == offered_kinds(unsafe_tools),
{
    let mut r: Vec<ToolKind> = Vec::new();
    r.push(ToolKind::GithubPullRequest);
    r.push(ToolKind::GithubPullRequestPatch);
    r.push(ToolKind::ReadFile);
    r.push(ToolKind::DeletePath);
    r.push(ToolKind::WriteFile);
    r.push(ToolKind::PatchFile);
    r.push(ToolKind::Glob);
    r.push(ToolKind::GrepInCurrentDirectory);
    r.push(ToolKind::GithubIssue);
    r.push(ToolKind::GithubIssueComments);
    r.push(ToolKind::GithubIssues);
    r.push(ToolKind::GithubPullRequests);
    r.push(ToolKind::AgentCreate);
    r.push(ToolKind::AgentDelete);
    r.push(ToolKind::AgentList);
    r.push(ToolKind::AgentGet);
    r.push(ToolKind::AgentDataSet);
    r.push(ToolKind::AgentDataGet);
    r.push(ToolKind::AgentDataDelete);
    r.push(ToolKind::AgentDataList);
    r.push(ToolKind::TaskCreateCron);
    r.push(ToolKind::TaskCreateOneshot);
    r.push(ToolKind::TaskDelete);
    r.push(ToolKind::TaskList);
    r.push(ToolKind::TaskGet);
    r.push(ToolKind::TaskSetEnabled);
    r.push(ToolKind::TaskPending);
    r.push(ToolKind::SendMessage);
    r.push(ToolKind::SpawnAgent);
    assert(r@ =~= safe_kinds());
    if unsafe_tools {
        r.push(ToolKind::FetchWebContent);
        r.push(ToolKind::RunCommand);
        assert(r@ =~= safe_kinds() + unsafe_kinds());
    }
    r
}

/// The tool of a kind.
pub open spec fn tool_of(kind: ToolKind) -> Tool {
    Tool { name: kind_name(kind), kind, schema: kind_schema(kind) }
}

/// Whether a list of allowed names lets a tool through.
pub open spec fn is_allowed(name: Seq<char>, allowed: Option<Seq<Seq<char>>>) -> bool {
    match allowed {
        Some(v) => v.contains(name),
        None => true,
    }
}

/// The tools of the kinds that are allowed, in order.
pub open spec fn allowed_tools(kinds: Seq<ToolKind>, allowed: Option<Seq<Seq<char>>>) -> Seq<Tool>
    decreases kinds.len(),
{
    if kinds.len() == 0 {
        Seq::empty()
    } else if is_allowed(kind_name(kinds.last()), allowed) {
        allowed_tools(kinds.drop_last(), allowed).push(tool_of(kinds.last()))
    } else {
        allowed_tools(kinds.drop_last(), allowed)
    }
}

/// The views of an optional list of names.
pub open spec fn allowed_view(allowed: Option<&[String]>) -> Option<Seq<Seq<char>>> {
    match allowed {
        Some(v) => Some(words::views(v@)),
        None => None,
    }
}

/// The tools of a session.
#[derive(Debug)]
pub struct ToolsCollection {
    pub items: Vec<ToolItem>,
}

/// The position of a tool, or the length of the list.
pub open spec fn tool_position(v: Seq<Tool>, name: Seq<char>, i: int) -> int
    decreases v.len() - i,
{
    if 0 <= i < v.len() && v[i].name != name {
        tool_position(v, name, i + 1)
    } else {
        i
    }
}

/// Whether a tool of the given name is there.
pub open spec fn has_tool(v: Seq<Tool>, name: Seq<char>) -> bool {
    exists|i: int| 0 <= i < v.len() && (#[trigger] v[i]).name == name
}

/// The names of the tools.
pub open spec fn names_of(v: Seq<Tool>) -> Seq<Seq<char>> {
    Seq::new(v.len(), |i: int| v[i].name)
}

impl ToolsCollection {
    /// The tools.
    pub open spec fn list(self) -> Seq<Tool> {
        tool_views(self.items@)
    }

    /// No tools.
    pub fn new() -> (r: Self)
        ensures
            r.list() == Seq::<Tool>::empty(),
    {
        let r = ToolsCollection { items: Vec::new() };
        assert(r.list() =~= Seq::<Tool>::empty());
        r
    }

    fn position(&self, name: &str) -> (r: usize)
        ensures
            r == tool_position(self.list(), name@, 0),
            r <= self.items@.len(),
            r < self.items@.len() ==> self.list()[r as int].name == name@,
            forall|j: int| 0 <= j < r ==> (#[trigger] self.list()[j]).name != name@,
    {
        let mut i: usize = 0;
        while i < self.items.len() && !same(self.items[i].name.as_str(), name)
            invariant
                i <= self.items@.len(),
                tool_position(self.list(), name@, 0) == tool_position(
                    self.list(),
                    name@,
                    i as int,
                ),
                forall|j: int| 0 <= j < i ==> (#[trigger] self.list()[j]).name != name@,
            decreases self.items@.len() - i,
        {
            i += 1;
        }
        i
    }

    /// Adds a tool. It takes the place of one with the same name.
    pub fn insert(&mut self, item: ToolItem)
        ensures
            final(self).list() == ({
                let v = old(self).list();
                let p = tool_position(v, item@.name, 0);
                if p < v.len() {
                    v.update(p, item@)
                } else {
                    v.push(item@)
                }
            }),
    {
        let p = self.position(item.name.as_str());
        let ghost v = self.list();
        let ghost t = item@;
        if p < self.items.len() {
            self.items.set(p, item);
            assert(self.list() =~= v.update(p as int, t));
        } else {
            self.items.push(item);
            assert(self.list() =~= v.push(t));
        }
    }

    /// Whether a tool of the given name is there.
    pub fn contains_key(&self, name: &str) -> (r: bool)
        ensures
            r == has_tool(self.list(), name@),
    {
        let p = self.position(name);
        assert(self.list().len() == self.items@.len());
        p < self.items.len()
    }

    /// The tool of the given name.
    pub fn get(&self, name: &str) -> (r: Option<&ToolItem>)
        ensures
            match r {
                Some(t) => has_tool(self.list(), name@) && t@ == self.list()[tool_position(
                    self.list(),
                    name@,
                    0,
                )],
                None => !has_tool(self.list(), name@),
            },
    {
        let p = self.position(name);
        assert(self.list().len() == self.items@.len());
        if p < self.items.len() {
            assert(self.list()[p as int].name == name@);
            Some(&self.items[p])
        } else {
            None
        }
    }

    /// The number of tools.
    pub fn len(&self) -> (r: usize)
        ensures
            r == self.list().len(),
    {
        self.items.len()
    }

    /// Whether there are no tools.
    pub fn is_empty(&self) -> (r: bool)
        ensures
            r == (self.list().len() == 0),
    {
        self.items.len() == 0
    }

    /// The names of the tools, sorted.
    pub fn sorted_names(&self) -> (r: Vec<String>)
        ensures
            words::views(r@) == order::in_order(names_of(self.list())),
            r@.len() == self.list().len(),
    {
        let mut names: Vec<String> = Vec::new();
        let mut i: usize = 0;
        assert(words::views(names@) =~= names_of(self.list()).take(0));
        while i < self.items.len()
            invariant
                i <= self.items@.len(),
                words::views(names@) == names_of(self.list()).take(i as int),
            decreases self.items@.len() - i,
        {
            let n = self.items[i].name.clone();
            proof {
                words::views_push(names@, n);
                assert(names_of(self.list()).take(i + 1) =~= names_of(self.list()).take(
                    i as int,
                ).push(self.items@[i as int]@.name));
            }
            names.push(n);
            i += 1;
        }
        assert(names_of(self.list()).take(self.items@.len() as int) =~= names_of(self.list()));
        let r = sorted(names.as_slice());
        proof {
            order::in_order_sorts(names_of(self.list()));
            assert(words::views(r@).len() == r@.len());
        }
        r
    }
}

/// Adds a tool to a collection.
pub fn append_tool(tools: &mut ToolsCollection, name: String, kind: ToolKind, schema: String)
    ensures
        final(tools).list() == ({
            let v = old(tools).list();
            let t = Tool { name: name@, kind, schema: schema@ };
            let p = tool_position(v, name@, 0);
            if p < v.len() {
                v.update(p, t)
            } else {
                v.push(t)
            }
        }),
{
    tools.insert(ToolItem { name, kind, schema });
}

/// The tools of a session: the safe ones, the unsafe ones too where they are asked for, and of
/// these only those that are allowed where names are given.
pub fn initialize_tools(unsafe_tools: bool, allowed: Option<&[String]>) -> (r: ToolsCollection)
    ensures
        r.list() == allowed_tools(offered_kinds(unsafe_tools), allowed_view(allowed)),
{
    let kinds = kinds_offered(unsafe_tools);
    let ghost w = allowed_view(allowed);
    let mut items: Vec<ToolItem> = Vec::new();
    let mut i: usize = 0;
    assert(tool_views(items@) =~= allowed_tools(kinds@.take(0), w));
    while i < kinds.len()
        invariant
            i <= kinds@.len(),
            w == allowed_view(allowed),
            tool_views(items@) == allowed_tools(kinds@.take(i as int), w),
        decreases kinds@.len() - i,
    {
        let kind = kinds[i];
        let name = tool_name(kind);
        assert(kinds@.take(i + 1).drop_last() =~= kinds@.take(i as int));
        let keep = match allowed {
            Some(v) => contains_text(v, name),
            None => true,
        };
        proof {
            match allowed {
                Some(v) => {
                    if text::holds_text(v@, name@) {
                        let j = choose|j: int| 0 <= j < v@.len() && (#[trigger] v@[j])@ == name@;
                        assert(words::views(v@)[j] == name@);
                    }
                    if words::views(v@).contains(name@) {
                        let j = choose|j: int|
                            0 <= j < words::views(v@).len() && words::views(v@)[j] == name@;
                        assert(v@[j]@ == name@);
                    }
                },
                None => {},
            }
        }
        if keep {
            let ghost before = tool_views(items@);
            items.push(
                ToolItem { name: name.to_owned(), kind, schema: tool_schema(kind).to_owned() },
            );
            assert(tool_views(items@) =~= before.push(tool_of(kind)));
        }
        i += 1;
    }
    assert(kinds@.take(kinds@.len() as int) =~= kinds@);
    ToolsCollection { items }
}

proof fn allowed_tools_facts(kinds: Seq<ToolKind>, allowed: Option<Seq<Seq<char>>>)
    ensures
        forall|i: int|
            0 <= i < allowed_tools(kinds, allowed).len() ==> {
                let t = #[trigger] allowed_tools(kinds, allowed)[i];
                &&& kinds.contains(t.kind)
                &&& t == tool_of(t.kind)
                &&& is_allowed(t.name, allowed)
            },
    decreases kinds.len(),
{
    if kinds.len() > 0 {
        let rest = allowed_tools(kinds.drop_last(), allowed);
        allowed_tools_facts(kinds.drop_last(), allowed);
        assert forall|i: int| 0 <= i < allowed_tools(kinds, allowed).len() implies ({
            let t = #[trigger] allowed_tools(kinds, allowed)[i];
            &&& kinds.contains(t.kind)
            &&& t == tool_of(t.kind)
            &&& is_allowed(t.name, allowed)
        }) by {
            if i < rest.len() {
                let t = rest[i];
                assert(kinds.drop_last().contains(t.kind));
                let j = choose|j: int|
                    0 <= j < kinds.drop_last().len() && kinds.drop_last()[j] == t.kind;
                assert(kinds[j] == t.kind);
            } else {
                assert(kinds[kinds.len() - 1] == kinds.last());
            }
        }
    }
}

/// Unsafe tools are never there unless they are asked for, whatever names are allowed; and a tool
/// that is not among the allowed names is never there.
pub proof fn tools_are_opt_in(unsafe_tools: bool, allowed: Option<Seq<Seq<char>>>)
    ensures
        forall|i: int|
            0 <= i < allowed_tools(offered_kinds(unsafe_tools), allowed).len() ==> {
                let t = #[trigger] allowed_tools(offered_kinds(unsafe_tools), allowed)[i];
                &&& !unsafe_tools ==> !unsafe_kinds().contains(t.kind)
                &&& is_allowed(t.name, allowed)
            },
{
    allowed_tools_facts(offered_kinds(unsafe_tools), allowed);
    assert(forall|k: ToolKind| safe_kinds().contains(k) ==> !unsafe_kinds().contains(k));
}

/// A tool that is there stands under its own name and with its own schema, and the tools that are
/// there are all those that may be: what reads pages and runs commands has to be asked for, and
/// where names are given, only the tools of those names are allowed.
pub proof fn every_tool_is_offered(
    kind: ToolKind,
    unsafe_tools: bool,
    allowed: Option<Seq<Seq<char>>>,
)
    ensures
        allowed_tools(offered_kinds(unsafe_tools), allowed).contains(
            Tool { name: kind_name(kind), kind, schema: kind_schema(kind) },
        ) <==> {
            &&& unsafe_tools || (kind != ToolKind::FetchWebContent && kind != ToolKind::RunCommand)
            &&& allowed matches Some(names) ==> names.contains(kind_name(kind))
        },
{
    let safe = safe_kinds();
    let all = offered_kinds(unsafe_tools);
    if kind == ToolKind::FetchWebContent {
        assert(unsafe_tools ==> all[29] == kind);
    } else if kind == ToolKind::RunCommand {
        assert(unsafe_tools ==> all[30] == kind);
    } else {
        kind_is_safe(kind);
        let i = choose|i: int| 0 <= i < safe.len() && safe[i] == kind;
        assert(all[i] == kind);
    }
    assert(all.contains(kind) <==> unsafe_tools || (kind != ToolKind::FetchWebContent && kind
        != ToolKind::RunCommand));
    allowed_tools_facts(all, allowed);
    let v = allowed_tools(all, allowed);
    if v.contains(tool_of(kind)) {
        let i = choose|i: int| 0 <= i < v.len() && v[i] == tool_of(kind);
        assert(v[i].kind == kind);
    }
    if all.contains(kind) && is_allowed(kind_name(kind), allowed) {
        let i = choose|i: int| 0 <= i < all.len() && all[i] == kind;
        allowed_is_there(all, allowed, i);
    }
}

proof fn kind_is_safe(kind: ToolKind)
    requires
        kind != ToolKind::FetchWebContent,
        kind != ToolKind::RunCommand,
    ensures
        safe_kinds().contains(kind),
{
    let v = safe_kinds();
    assert(v[0] == ToolKind::GithubPullRequest && v[1] == ToolKind::GithubPullRequestPatch);
    assert(v[2] == ToolKind::ReadFile && v[3] == ToolKind::DeletePath);
    assert(v[4] == ToolKind::WriteFile && v[5] == ToolKind::PatchFile && v[6] == ToolKind::Glob);
    assert(v[7] == ToolKind::GrepInCurrentDirectory && v[8] == ToolKind::GithubIssue);
    assert(v[9] == ToolKind::GithubIssueComments && v[10] == ToolKind::GithubIssues);
    assert(v[11] == ToolKind::GithubPullRequests && v[12] == ToolKind::AgentCreate);
    assert(v[13] == ToolKind::AgentDelete && v[14] == ToolKind::AgentList);
    assert(v[15] == ToolKind::AgentGet && v[16] == ToolKind::AgentDataSet);
    assert(v[17] == ToolKind::AgentDataGet && v[18] == ToolKind::AgentDataDelete);
    assert(v[19] == ToolKind::AgentDataList && v[20] == ToolKind::TaskCreateCron);
    assert(v[21] == ToolKind::TaskCreateOneshot && v[22] == ToolKind::TaskDelete);
    assert(v[23] == ToolKind::TaskList && v[24] == ToolKind::TaskGet);
    assert(v[25] == ToolKind::TaskSetEnabled && v[26] == ToolKind::TaskPending);
    assert(v[27] == ToolKind::SendMessage && v[28] == ToolKind::SpawnAgent);
}

proof fn allowed_is_there(kinds: Seq<ToolKind>, allowed: Option<Seq<Seq<char>>>, i: int)
    requires
        0 <= i < kinds.len(),
        is_allowed(kind_name(kinds[i]), allowed),
    ensures
        allowed_tools(kinds, allowed).contains(tool_of(kinds[i])),
    decreases kinds.len(),
{
    let v = allowed_tools(kinds, allowed);
    let w = allowed_tools(kinds.drop_last(), allowed);
    if i == kinds.len() - 1 {
        assert(v[w.len() as int] == tool_of(kinds[i]));
    } else {
        assert(kinds.drop_last()[i] == kinds[i]);
        allowed_is_there(kinds.drop_last(), allowed, i);
        let j = choose|j: int| 0 <= j < w.len() && w[j] == tool_of(kinds[i]);
        assert(v[j] == tool_of(kinds[i]));
    }
}

/// A tool is found by its name: the first of that name, and none where there is none.
pub proof fn tools_are_found_by_name(v: Seq<Tool>, name: Seq<char>, i: int)
    requires
        0 <= i <= v.len(),
    ensures
        i <= tool_position(v, name, i) <= v.len(),
        tool_position(v, name, i) < v.len() ==> v[tool_position(v, name, i)].name == name,
        forall|j: int|
            i <= j < tool_position(v, name, i) ==> (#[trigger] v[j]).name != name,
    decreases v.len() - i,
{
    if i < v.len() && v[i].name != name {
        tools_are_found_by_name(v, name, i + 1);
    }
}

/// The lines of a tool listing: one per tool, with a mark for the unsafe ones.
pub open spec fn listing_line(name: Seq<char>, safe: bool) -> Seq<char> {
    "  "@ + name + (if safe {
        ""@
    } else {
        " [unsafe]"@
    })
}

/// The line for a tool in a listing.
pub fn tool_listing_line(name: &str, safe: bool) -> (r: String)
    ensures
        r@ == listing_line(name@, safe),
{
    let mut s = "  ".to_owned();
    s.append(name);
    if safe {
        s.append("");
    } else {
        s.append(" [unsafe]");
    }
    s
}

/// The listing of all built-in tools, sorted by name.
pub open spec fn builtin_listing() -> Seq<Seq<char>> {
    let names = order::in_order(names_of(allowed_tools(offered_kinds(true), None)));
    Seq::new(
        names.len(),
        |i: int|
            listing_line(
                names[i],
                has_tool(allowed_tools(offered_kinds(false), None), names[i]),
            ),
    )
}

/// The listing of all built-in tools, sorted by name.
pub fn list_tools_lines() -> (r: Vec<String>)
    ensures
        words::views(r@) == builtin_listing(),
{
    let safe = initialize_tools(false, None);
    let all = initialize_tools(true, None);
    let names = all.sorted_names();
    let ghost v = words::views(names@);
    let ghost safe_list = allowed_tools(offered_kinds(false), None);
    let ghost expect = Seq::new(
        v.len(),
        |i: int| listing_line(v[i], has_tool(safe_list, v[i])),
    );
    let mut r: Vec<String> = Vec::new();
    let mut i: usize = 0;
    assert(words::views(r@) =~= expect.take(0));
    while i < names.len()
        invariant
            i <= names@.len(),
            v == words::views(names@),
            safe.list() == safe_list,
            expect == Seq::new(v.len(), |i: int| listing_line(v[i], has_tool(safe_list, v[i]))),
            words::views(r@) == expect.take(i as int),
        decreases names@.len() - i,
    {
        let line = tool_listing_line(names[i].as_str(), safe.contains_key(names[i].as_str()));
        proof {
            words::views_push(r@, line);
            assert(v[i as int] == names@[i as int]@);
            assert(expect.take(i + 1) =~= expect.take(i as int).push(expect[i as int]));
        }
        r.push(line);
        i += 1;
    }
    assert(expect.take(v.len() as int) =~= expect);
    r
}

} // verus!
