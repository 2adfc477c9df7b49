# chell

Chell is a Discord companion bot that talks in Portuguese through a language
model, learns things from the chat and remembers them later by the topics of
the conversation. Its memories and the chat history live in a Meilisearch
index.

The library (`src/`) holds the bot's logic, with contracts checked by Verus:

- `text`: decimal rendering and parsing, substring search, whitespace and
  line splitting, and the outside text functions (lower-casing, JSON string
  encoding) the rest relies on.
- `chat_logs`: stored messages, the prompt text of a chat log, marking
  messages read, ordering by time, following reply chains.
- `topics`: the words of a log that are not stop words, and the search query
  made of them.
- `memory_core`: what is stored when the model learned something.
- `ai`, `baichat_rs`: the request sent to the model, the retry policy, and the
  client's handling of streamed replies.
- `bot`: the bot's moods and the decision, message by message, whether and
  how to answer.
- `utils`, `database`, `results`, `search_backend`: shared records and errors.

`app/` is the program around it: the Discord client, the HTTP calls to the
model, the search backend, and the serde forms of the records.
