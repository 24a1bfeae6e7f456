# Gemma Gateway

Runs Gemini CLI against a local model that an OpenAI-compatible server (vLLM)
serves. The gateway speaks Gemini REST at the front and OpenAI chat completions at
the back; what it decides in between is proved with Verus.

```text
Gemini CLI ── Gemini REST ──▶ gemma-gateway ── OpenAI chat ──▶ vLLM ──▶ Gemma
```

## Layout

- `src/` is the verified library:
  - `value`: JSON values, their mathematical model, and the accessors;
  - `wire`: the boundary with `serde_json`, with everything that is believed of it;
  - `text`: trimming, splitting and comparing text;
  - `request`: a Gemini request to an OpenAI request;
  - `response`: an OpenAI answer, or one chunk of it, to a Gemini response;
  - `stream`: a whole streamed turn, from the bytes of the server to the events for
    the client, with tool calls put together across chunks;
  - `gateway`: which model a request is for, where it goes, when it is tried again,
    and what is answered;
  - `laws`: what holds of all of this together.
- `tests/` runs the library on concrete values.
- `app/` is the program around it: arguments, HTTP in both directions, logging.

## What it translates

| Gemini API | Local OpenAI/vLLM |
|---|---|
| `contents[].parts[]` and system instructions | chat-completion messages |
| function declarations, calls, and responses | tools and tool messages |
| fragmented streamed function calls | complete tool calls with JSON arguments |
| `thought: true` parts of an answer | `reasoning_content` |
| `responseJsonSchema`, `responseSchema`, `responseMimeType` | `response_format` |
| `toolConfig` modes | `tool_choice` |
| streamed usage metadata | `stream_options.include_usage` |
| inline and file media parts | image, audio, and video parts |
| `countTokens` | `/tokenize`, else an estimate of four bytes to a token |
| model listing | `/models`, with the stock Gemini names next to it |

## What is tried again

- A rejected request clears the discovered model and is sent once more, if the
  server now serves another one.
- A streamed turn that shows nothing is asked for again at most twice, and only
  before anything has been sent to the client.
- Upstream 4xx responses remain 4xx; everything else is a gateway failure.
