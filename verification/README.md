# gpt_alarm

The decision logic of an alarm clock that watches a bed through a camera and
asks a small vision-language model, served locally, whether someone is still
lying in it. From 07:00 to 12:00 the buzzer sounds while the model keeps
seeing someone in bed.

- `src/` is the verified library: the armed interval (`schedule`), the answer
  history and its alarm rule (`history`), how the model's replies are read
  (`votes`), the request sent to the model (`request`), the main loop as a
  state machine (`dispatch`), the buzzer and status-light workers (`sound`,
  `led`), the camera's frame hand-over (`camera`) and the model server's
  supervision (`server`).
- `app/` is the program around it: camera pipeline, GPIO lines, HTTP calls,
  the server process, threads and timers.
- `tests/` exercises the library on concrete values.
